//! Assembly emitters for the arithmetic, comparison, memory and syscall
//! primitives. Each emitter writes a fixed block of lines at the builder's
//! cursor; the block is pinned, line for line, by a spec function.

use vstd::prelude::*;
use crate::codegen::builder::{Builder, inserted_block, insert_block, lines_view};

verus! {

/// The lines emitted for `+`.
pub open spec fn add_text() -> Seq<Seq<char>> {
    seq![
        "    ;; -- add --"@,
        "    pop     rax"@,
        "    pop     rbx"@,
        "    add     rax, rbx"@,
        "    push    rax"@,
    ]
}

/// Emit the code for `+`.
pub fn add(b: &mut Builder)
    requires
        old(b).cursor_ok(),
    ensures
        final(b).same_but_active(*old(b)),
        final(b).active_v() == inserted_block(old(b).active_v(), old(b).insert_point, add_text()),
{
    let mut lines: Vec<String> = Vec::new();
    lines.push(String::from_str("    ;; -- add --"));
    lines.push(String::from_str("    pop     rax"));
    lines.push(String::from_str("    pop     rbx"));
    lines.push(String::from_str("    add     rax, rbx"));
    lines.push(String::from_str("    push    rax"));
    proof {
        assert(lines_view(lines@) =~= add_text());
    }
    insert_block(b, lines);
}

/// The lines emitted for `-`.
pub open spec fn sub_text() -> Seq<Seq<char>> {
    seq![
        "    ;; -- sub --"@,
        "    pop     rbx"@,
        "    pop     rax"@,
        "    sub     rax, rbx"@,
        "    push    rax"@,
    ]
}

/// Emit the code for `-`.
pub fn sub(b: &mut Builder)
    requires
        old(b).cursor_ok(),
    ensures
        final(b).same_but_active(*old(b)),
        final(b).active_v() == inserted_block(old(b).active_v(), old(b).insert_point, sub_text()),
{
    let mut lines: Vec<String> = Vec::new();
    lines.push(String::from_str("    ;; -- sub --"));
    lines.push(String::from_str("    pop     rbx"));
    lines.push(String::from_str("    pop     rax"));
    lines.push(String::from_str("    sub     rax, rbx"));
    lines.push(String::from_str("    push    rax"));
    proof {
        assert(lines_view(lines@) =~= sub_text());
    }
    insert_block(b, lines);
}

/// The lines emitted for `*`.
pub open spec fn mul_text() -> Seq<Seq<char>> {
    seq![
        "    ;; -- mul --"@,
        "    pop     rax"@,
        "    pop     rbx"@,
        "    mul     rbx"@,
        "    push    rax"@,
    ]
}

/// Emit the code for `*`.
pub fn mul(b: &mut Builder)
    requires
        old(b).cursor_ok(),
    ensures
        final(b).same_but_active(*old(b)),
        final(b).active_v() == inserted_block(old(b).active_v(), old(b).insert_point, mul_text()),
{
    let mut lines: Vec<String> = Vec::new();
    lines.push(String::from_str("    ;; -- mul --"));
    lines.push(String::from_str("    pop     rax"));
    lines.push(String::from_str("    pop     rbx"));
    lines.push(String::from_str("    mul     rbx"));
    lines.push(String::from_str("    push    rax"));
    proof {
        assert(lines_view(lines@) =~= mul_text());
    }
    insert_block(b, lines);
}

/// The lines emitted for `/`.
pub open spec fn div_text() -> Seq<Seq<char>> {
    seq![
        "    ;; -- div --"@,
        "    xor     rdx, rdx"@,
        "    pop     rbx"@,
        "    pop     rax"@,
        "    div     rbx"@,
        "    push    rax"@,
    ]
}

/// Emit the code for `/`.
pub fn div(b: &mut Builder)
    requires
        old(b).cursor_ok(),
    ensures
        final(b).same_but_active(*old(b)),
        final(b).active_v() == inserted_block(old(b).active_v(), old(b).insert_point, div_text()),
{
    let mut lines: Vec<String> = Vec::new();
    lines.push(String::from_str("    ;; -- div --"));
    lines.push(String::from_str("    xor     rdx, rdx"));
    lines.push(String::from_str("    pop     rbx"));
    lines.push(String::from_str("    pop     rax"));
    lines.push(String::from_str("    div     rbx"));
    lines.push(String::from_str("    push    rax"));
    proof {
        assert(lines_view(lines@) =~= div_text());
    }
    insert_block(b, lines);
}

/// The lines emitted for `mod`.
pub open spec fn mod__text() -> Seq<Seq<char>> {
    seq![
        "    ;; -- divmod --"@,
        "    xor     rdx, rdx"@,
        "    pop     rbx"@,
        "    pop     rax"@,
        "    div     rbx"@,
        "    push    rdx"@,
    ]
}

/// Emit the code for `mod`.
pub fn mod_(b: &mut Builder)
    requires
        old(b).cursor_ok(),
    ensures
        final(b).same_but_active(*old(b)),
        final(b).active_v() == inserted_block(old(b).active_v(), old(b).insert_point, mod__text()),
{
    let mut lines: Vec<String> = Vec::new();
    lines.push(String::from_str("    ;; -- divmod --"));
    lines.push(String::from_str("    xor     rdx, rdx"));
    lines.push(String::from_str("    pop     rbx"));
    lines.push(String::from_str("    pop     rax"));
    lines.push(String::from_str("    div     rbx"));
    lines.push(String::from_str("    push    rdx"));
    proof {
        assert(lines_view(lines@) =~= mod__text());
    }
    insert_block(b, lines);
}

/// The lines emitted for `divmod`.
pub open spec fn divmod_text() -> Seq<Seq<char>> {
    seq![
        "    ;; -- divmod --"@,
        "    xor     rdx, rdx"@,
        "    pop     rbx"@,
        "    pop     rax"@,
        "    div     rbx"@,
        "    push    rax"@,
        "    push    rdx"@,
    ]
}

/// Emit the code for `divmod`.
pub fn divmod(b: &mut Builder)
    requires
        old(b).cursor_ok(),
    ensures
        final(b).same_but_active(*old(b)),
        final(b).active_v() == inserted_block(old(b).active_v(), old(b).insert_point, divmod_text()),
{
    let mut lines: Vec<String> = Vec::new();
    lines.push(String::from_str("    ;; -- divmod --"));
    lines.push(String::from_str("    xor     rdx, rdx"));
    lines.push(String::from_str("    pop     rbx"));
    lines.push(String::from_str("    pop     rax"));
    lines.push(String::from_str("    div     rbx"));
    lines.push(String::from_str("    push    rax"));
    lines.push(String::from_str("    push    rdx"));
    proof {
        assert(lines_view(lines@) =~= divmod_text());
    }
    insert_block(b, lines);
}

/// The lines emitted for `~`.
pub open spec fn not_text() -> Seq<Seq<char>> {
    seq![
        "    ;; -- not --"@,
        "    pop     rax"@,
        "    neg     rax"@,
        "    push    rax"@,
    ]
}

/// Emit the code for `~`.
pub fn not(b: &mut Builder)
    requires
        old(b).cursor_ok(),
    ensures
        final(b).same_but_active(*old(b)),
        final(b).active_v() == inserted_block(old(b).active_v(), old(b).insert_point, not_text()),
{
    let mut lines: Vec<String> = Vec::new();
    lines.push(String::from_str("    ;; -- not --"));
    lines.push(String::from_str("    pop     rax"));
    lines.push(String::from_str("    neg     rax"));
    lines.push(String::from_str("    push    rax"));
    proof {
        assert(lines_view(lines@) =~= not_text());
    }
    insert_block(b, lines);
}

/// The lines emitted for `band`.
pub open spec fn band_text() -> Seq<Seq<char>> {
    seq![
        "    ;; -- and --"@,
        "    pop     rax"@,
        "    pop     rbx"@,
        "    and     rax, rbx"@,
        "    push    rax"@,
    ]
}

/// Emit the code for `band`.
pub fn band(b: &mut Builder)
    requires
        old(b).cursor_ok(),
    ensures
        final(b).same_but_active(*old(b)),
        final(b).active_v() == inserted_block(old(b).active_v(), old(b).insert_point, band_text()),
{
    let mut lines: Vec<String> = Vec::new();
    lines.push(String::from_str("    ;; -- and --"));
    lines.push(String::from_str("    pop     rax"));
    lines.push(String::from_str("    pop     rbx"));
    lines.push(String::from_str("    and     rax, rbx"));
    lines.push(String::from_str("    push    rax"));
    proof {
        assert(lines_view(lines@) =~= band_text());
    }
    insert_block(b, lines);
}

/// The lines emitted for `bor`.
pub open spec fn bor_text() -> Seq<Seq<char>> {
    seq![
        "    ;; -- or --"@,
        "    pop     rax"@,
        "    pop     rbx"@,
        "    or      rax, rbx"@,
        "    push    rax"@,
    ]
}

/// Emit the code for `bor`.
pub fn bor(b: &mut Builder)
    requires
        old(b).cursor_ok(),
    ensures
        final(b).same_but_active(*old(b)),
        final(b).active_v() == inserted_block(old(b).active_v(), old(b).insert_point, bor_text()),
{
    let mut lines: Vec<String> = Vec::new();
    lines.push(String::from_str("    ;; -- or --"));
    lines.push(String::from_str("    pop     rax"));
    lines.push(String::from_str("    pop     rbx"));
    lines.push(String::from_str("    or      rax, rbx"));
    lines.push(String::from_str("    push    rax"));
    proof {
        assert(lines_view(lines@) =~= bor_text());
    }
    insert_block(b, lines);
}

/// The lines emitted for `bxor`.
pub open spec fn xor_text() -> Seq<Seq<char>> {
    seq![
        "    ;; -- xor --"@,
        "    pop     rax"@,
        "    pop     rbx"@,
        "    xor     rax, rbx"@,
        "    push    rax"@,
    ]
}

/// Emit the code for `bxor`.
pub fn xor(b: &mut Builder)
    requires
        old(b).cursor_ok(),
    ensures
        final(b).same_but_active(*old(b)),
        final(b).active_v() == inserted_block(old(b).active_v(), old(b).insert_point, xor_text()),
{
    let mut lines: Vec<String> = Vec::new();
    lines.push(String::from_str("    ;; -- xor --"));
    lines.push(String::from_str("    pop     rax"));
    lines.push(String::from_str("    pop     rbx"));
    lines.push(String::from_str("    xor     rax, rbx"));
    lines.push(String::from_str("    push    rax"));
    proof {
        assert(lines_view(lines@) =~= xor_text());
    }
    insert_block(b, lines);
}

/// The lines emitted for `shl`.
pub open spec fn shl_text() -> Seq<Seq<char>> {
    seq![
        "    ;; -- shl --"@,
        "    pop     rcx"@,
        "    pop     rax"@,
        "    shl     rax, cl"@,
        "    push    rax"@,
    ]
}

/// Emit the code for `shl`.
pub fn shl(b: &mut Builder)
    requires
        old(b).cursor_ok(),
    ensures
        final(b).same_but_active(*old(b)),
        final(b).active_v() == inserted_block(old(b).active_v(), old(b).insert_point, shl_text()),
{
    let mut lines: Vec<String> = Vec::new();
    lines.push(String::from_str("    ;; -- shl --"));
    lines.push(String::from_str("    pop     rcx"));
    lines.push(String::from_str("    pop     rax"));
    lines.push(String::from_str("    shl     rax, cl"));
    lines.push(String::from_str("    push    rax"));
    proof {
        assert(lines_view(lines@) =~= shl_text());
    }
    insert_block(b, lines);
}

/// The lines emitted for `shr`.
pub open spec fn shr_text() -> Seq<Seq<char>> {
    seq![
        "    ;; -- shr --"@,
        "    pop     rcx"@,
        "    pop     rax"@,
        "    shr     rax, cl"@,
        "    push    rax"@,
    ]
}

/// Emit the code for `shr`.
pub fn shr(b: &mut Builder)
    requires
        old(b).cursor_ok(),
    ensures
        final(b).same_but_active(*old(b)),
        final(b).active_v() == inserted_block(old(b).active_v(), old(b).insert_point, shr_text()),
{
    let mut lines: Vec<String> = Vec::new();
    lines.push(String::from_str("    ;; -- shr --"));
    lines.push(String::from_str("    pop     rcx"));
    lines.push(String::from_str("    pop     rax"));
    lines.push(String::from_str("    shr     rax, cl"));
    lines.push(String::from_str("    push    rax"));
    proof {
        assert(lines_view(lines@) =~= shr_text());
    }
    insert_block(b, lines);
}

/// The lines emitted for `=`.
pub open spec fn eq_text() -> Seq<Seq<char>> {
    seq![
        "    ;; -- eq --"@,
        "    mov     rcx, 0"@,
        "    mov     rdx, 1"@,
        "    pop     rax"@,
        "    pop     rbx"@,
        "    cmp     rax, rbx"@,
        "    cmove   rcx, rdx"@,
        "    push    rcx"@,
    ]
}

/// Emit the code for `=`.
pub fn eq(b: &mut Builder)
    requires
        old(b).cursor_ok(),
    ensures
        final(b).same_but_active(*old(b)),
        final(b).active_v() == inserted_block(old(b).active_v(), old(b).insert_point, eq_text()),
{
    let mut lines: Vec<String> = Vec::new();
    lines.push(String::from_str("    ;; -- eq --"));
    lines.push(String::from_str("    mov     rcx, 0"));
    lines.push(String::from_str("    mov     rdx, 1"));
    lines.push(String::from_str("    pop     rax"));
    lines.push(String::from_str("    pop     rbx"));
    lines.push(String::from_str("    cmp     rax, rbx"));
    lines.push(String::from_str("    cmove   rcx, rdx"));
    lines.push(String::from_str("    push    rcx"));
    proof {
        assert(lines_view(lines@) =~= eq_text());
    }
    insert_block(b, lines);
}

/// The lines emitted for `!=`.
pub open spec fn neq_text() -> Seq<Seq<char>> {
    seq![
        "    ;; -- ne --"@,
        "    mov     rcx, 0"@,
        "    mov     rdx, 1"@,
        "    pop     rax"@,
        "    pop     rbx"@,
        "    cmp     rax, rbx"@,
        "    cmovne  rcx, rdx"@,
        "    push    rcx"@,
    ]
}

/// Emit the code for `!=`.
pub fn neq(b: &mut Builder)
    requires
        old(b).cursor_ok(),
    ensures
        final(b).same_but_active(*old(b)),
        final(b).active_v() == inserted_block(old(b).active_v(), old(b).insert_point, neq_text()),
{
    let mut lines: Vec<String> = Vec::new();
    lines.push(String::from_str("    ;; -- ne --"));
    lines.push(String::from_str("    mov     rcx, 0"));
    lines.push(String::from_str("    mov     rdx, 1"));
    lines.push(String::from_str("    pop     rax"));
    lines.push(String::from_str("    pop     rbx"));
    lines.push(String::from_str("    cmp     rax, rbx"));
    lines.push(String::from_str("    cmovne  rcx, rdx"));
    lines.push(String::from_str("    push    rcx"));
    proof {
        assert(lines_view(lines@) =~= neq_text());
    }
    insert_block(b, lines);
}

/// The lines emitted for `<`.
pub open spec fn lt_text() -> Seq<Seq<char>> {
    seq![
        "    ;; -- lt --"@,
        "    mov     rcx, 0"@,
        "    mov     rdx, 1"@,
        "    pop     rbx"@,
        "    pop     rax"@,
        "    cmp     rax, rbx"@,
        "    cmovl   rcx, rdx"@,
        "    push    rcx"@,
    ]
}

/// Emit the code for `<`.
pub fn lt(b: &mut Builder)
    requires
        old(b).cursor_ok(),
    ensures
        final(b).same_but_active(*old(b)),
        final(b).active_v() == inserted_block(old(b).active_v(), old(b).insert_point, lt_text()),
{
    let mut lines: Vec<String> = Vec::new();
    lines.push(String::from_str("    ;; -- lt --"));
    lines.push(String::from_str("    mov     rcx, 0"));
    lines.push(String::from_str("    mov     rdx, 1"));
    lines.push(String::from_str("    pop     rbx"));
    lines.push(String::from_str("    pop     rax"));
    lines.push(String::from_str("    cmp     rax, rbx"));
    lines.push(String::from_str("    cmovl   rcx, rdx"));
    lines.push(String::from_str("    push    rcx"));
    proof {
        assert(lines_view(lines@) =~= lt_text());
    }
    insert_block(b, lines);
}

/// The lines emitted for `>`.
pub open spec fn gt_text() -> Seq<Seq<char>> {
    seq![
        "    ;; -- gt --"@,
        "    mov     rcx, 0"@,
        "    mov     rdx, 1"@,
        "    pop     rbx"@,
        "    pop     rax"@,
        "    cmp     rax, rbx"@,
        "    cmovg   rcx, rdx"@,
        "    push    rcx"@,
    ]
}

/// Emit the code for `>`.
pub fn gt(b: &mut Builder)
    requires
        old(b).cursor_ok(),
    ensures
        final(b).same_but_active(*old(b)),
        final(b).active_v() == inserted_block(old(b).active_v(), old(b).insert_point, gt_text()),
{
    let mut lines: Vec<String> = Vec::new();
    lines.push(String::from_str("    ;; -- gt --"));
    lines.push(String::from_str("    mov     rcx, 0"));
    lines.push(String::from_str("    mov     rdx, 1"));
    lines.push(String::from_str("    pop     rbx"));
    lines.push(String::from_str("    pop     rax"));
    lines.push(String::from_str("    cmp     rax, rbx"));
    lines.push(String::from_str("    cmovg   rcx, rdx"));
    lines.push(String::from_str("    push    rcx"));
    proof {
        assert(lines_view(lines@) =~= gt_text());
    }
    insert_block(b, lines);
}

/// The lines emitted for `<=`.
pub open spec fn lte_text() -> Seq<Seq<char>> {
    seq![
        "    ;; -- le --"@,
        "    mov     rcx, 0"@,
        "    mov     rdx, 1"@,
        "    pop     rbx"@,
        "    pop     rax"@,
        "    cmp     rax, rbx"@,
        "    cmovle  rcx, rdx"@,
        "    push    rcx"@,
    ]
}

/// Emit the code for `<=`.
pub fn lte(b: &mut Builder)
    requires
        old(b).cursor_ok(),
    ensures
        final(b).same_but_active(*old(b)),
        final(b).active_v() == inserted_block(old(b).active_v(), old(b).insert_point, lte_text()),
{
    let mut lines: Vec<String> = Vec::new();
    lines.push(String::from_str("    ;; -- le --"));
    lines.push(String::from_str("    mov     rcx, 0"));
    lines.push(String::from_str("    mov     rdx, 1"));
    lines.push(String::from_str("    pop     rbx"));
    lines.push(String::from_str("    pop     rax"));
    lines.push(String::from_str("    cmp     rax, rbx"));
    lines.push(String::from_str("    cmovle  rcx, rdx"));
    lines.push(String::from_str("    push    rcx"));
    proof {
        assert(lines_view(lines@) =~= lte_text());
    }
    insert_block(b, lines);
}

/// The lines emitted for `>=`.
pub open spec fn gte_text() -> Seq<Seq<char>> {
    seq![
        "    ;; -- ge --"@,
        "    mov     rcx, 0"@,
        "    mov     rdx, 1"@,
        "    pop     rbx"@,
        "    pop     rax"@,
        "    cmp     rax, rbx"@,
        "    cmovge  rcx, rdx"@,
        "    push    rcx"@,
    ]
}

/// Emit the code for `>=`.
pub fn gte(b: &mut Builder)
    requires
        old(b).cursor_ok(),
    ensures
        final(b).same_but_active(*old(b)),
        final(b).active_v() == inserted_block(old(b).active_v(), old(b).insert_point, gte_text()),
{
    let mut lines: Vec<String> = Vec::new();
    lines.push(String::from_str("    ;; -- ge --"));
    lines.push(String::from_str("    mov     rcx, 0"));
    lines.push(String::from_str("    mov     rdx, 1"));
    lines.push(String::from_str("    pop     rbx"));
    lines.push(String::from_str("    pop     rax"));
    lines.push(String::from_str("    cmp     rax, rbx"));
    lines.push(String::from_str("    cmovge  rcx, rdx"));
    lines.push(String::from_str("    push    rcx"));
    proof {
        assert(lines_view(lines@) =~= gte_text());
    }
    insert_block(b, lines);
}

/// The lines emitted for `,`.
pub open spec fn load_text() -> Seq<Seq<char>> {
    seq![
        "    ;; -- load --"@,
        "    pop     rax                         ;; Address to load from"@,
        "    xor     rbx, rbx                    ;; Zero out rbx"@,
        "    mov     bl, [rax]                   ;; Load low byte into rbx"@,
        "    push    rbx"@,
    ]
}

/// Emit the code for `,`.
pub fn load(b: &mut Builder)
    requires
        old(b).cursor_ok(),
    ensures
        final(b).same_but_active(*old(b)),
        final(b).active_v() == inserted_block(old(b).active_v(), old(b).insert_point, load_text()),
{
    let mut lines: Vec<String> = Vec::new();
    lines.push(String::from_str("    ;; -- load --"));
    lines.push(String::from_str("    pop     rax                         ;; Address to load from"));
    lines.push(String::from_str("    xor     rbx, rbx                    ;; Zero out rbx"));
    lines.push(String::from_str("    mov     bl, [rax]                   ;; Load low byte into rbx"));
    lines.push(String::from_str("    push    rbx"));
    proof {
        assert(lines_view(lines@) =~= load_text());
    }
    insert_block(b, lines);
}

/// The lines emitted for `,64`.
pub open spec fn load64_text() -> Seq<Seq<char>> {
    seq![
        "    ;; -- load64 --"@,
        "    pop     rax                         ;; Address to load from"@,
        "    xor     rbx, rbx                    ;; Zero out rbx"@,
        "    mov     rbx, [rax]                  ;; Load low byte into rbx"@,
        "    push    rbx                         ;; Push rbx"@,
    ]
}

/// Emit the code for `,64`.
pub fn load64(b: &mut Builder)
    requires
        old(b).cursor_ok(),
    ensures
        final(b).same_but_active(*old(b)),
        final(b).active_v() == inserted_block(old(b).active_v(), old(b).insert_point, load64_text()),
{
    let mut lines: Vec<String> = Vec::new();
    lines.push(String::from_str("    ;; -- load64 --"));
    lines.push(String::from_str("    pop     rax                         ;; Address to load from"));
    lines.push(String::from_str("    xor     rbx, rbx                    ;; Zero out rbx"));
    lines.push(String::from_str("    mov     rbx, [rax]                  ;; Load low byte into rbx"));
    lines.push(String::from_str("    push    rbx                         ;; Push rbx"));
    proof {
        assert(lines_view(lines@) =~= load64_text());
    }
    insert_block(b, lines);
}

/// The lines emitted for `.`.
pub open spec fn store_text() -> Seq<Seq<char>> {
    seq![
        "    ;; -- store --"@,
        "    pop     rbx                         ;; Value to store"@,
        "    pop     rax                         ;; Address to store into"@,
        "    mov     [rax], bl                   ;; Store low byte into address"@,
    ]
}

/// Emit the code for `.`.
pub fn store(b: &mut Builder)
    requires
        old(b).cursor_ok(),
    ensures
        final(b).same_but_active(*old(b)),
        final(b).active_v() == inserted_block(old(b).active_v(), old(b).insert_point, store_text()),
{
    let mut lines: Vec<String> = Vec::new();
    lines.push(String::from_str("    ;; -- store --"));
    lines.push(String::from_str("    pop     rbx                         ;; Value to store"));
    lines.push(String::from_str("    pop     rax                         ;; Address to store into"));
    lines.push(String::from_str("    mov     [rax], bl                   ;; Store low byte into address"));
    proof {
        assert(lines_view(lines@) =~= store_text());
    }
    insert_block(b, lines);
}

/// The lines emitted for `.64`.
pub open spec fn store64_text() -> Seq<Seq<char>> {
    seq![
        "    ;; -- store64 --"@,
        "    pop     rbx                         ;; Value to store"@,
        "    pop     rax                         ;; Address to store into"@,
        "    mov     [rax], rbx                  ;; Store low byte into address"@,
    ]
}

/// Emit the code for `.64`.
pub fn store64(b: &mut Builder)
    requires
        old(b).cursor_ok(),
    ensures
        final(b).same_but_active(*old(b)),
        final(b).active_v() == inserted_block(old(b).active_v(), old(b).insert_point, store64_text()),
{
    let mut lines: Vec<String> = Vec::new();
    lines.push(String::from_str("    ;; -- store64 --"));
    lines.push(String::from_str("    pop     rbx                         ;; Value to store"));
    lines.push(String::from_str("    pop     rax                         ;; Address to store into"));
    lines.push(String::from_str("    mov     [rax], rbx                  ;; Store low byte into address"));
    proof {
        assert(lines_view(lines@) =~= store64_text());
    }
    insert_block(b, lines);
}

/// The lines emitted for `syscall0`.
pub open spec fn syscall0_text() -> Seq<Seq<char>> {
    seq![
        "    ;; -- syscall0 --"@,
        "    pop     rax"@,
        "    syscall"@,
        "    push    rax"@,
    ]
}

/// Emit the code for `syscall0`.
pub fn syscall0(b: &mut Builder)
    requires
        old(b).cursor_ok(),
    ensures
        final(b).same_but_active(*old(b)),
        final(b).active_v() == inserted_block(old(b).active_v(), old(b).insert_point, syscall0_text()),
{
    let mut lines: Vec<String> = Vec::new();
    lines.push(String::from_str("    ;; -- syscall0 --"));
    lines.push(String::from_str("    pop     rax"));
    lines.push(String::from_str("    syscall"));
    lines.push(String::from_str("    push    rax"));
    proof {
        assert(lines_view(lines@) =~= syscall0_text());
    }
    insert_block(b, lines);
}

/// The lines emitted for `syscall1`.
pub open spec fn syscall1_text() -> Seq<Seq<char>> {
    seq![
        "    ;; -- syscall1 --"@,
        "    pop     rax                         ;; Syscall number"@,
        "    pop     rdi"@,
        "    syscall"@,
        "    push    rax"@,
    ]
}

/// Emit the code for `syscall1`.
pub fn syscall1(b: &mut Builder)
    requires
        old(b).cursor_ok(),
    ensures
        final(b).same_but_active(*old(b)),
        final(b).active_v() == inserted_block(old(b).active_v(), old(b).insert_point, syscall1_text()),
{
    let mut lines: Vec<String> = Vec::new();
    lines.push(String::from_str("    ;; -- syscall1 --"));
    lines.push(String::from_str("    pop     rax                         ;; Syscall number"));
    lines.push(String::from_str("    pop     rdi"));
    lines.push(String::from_str("    syscall"));
    lines.push(String::from_str("    push    rax"));
    proof {
        assert(lines_view(lines@) =~= syscall1_text());
    }
    insert_block(b, lines);
}

/// The lines emitted for `syscall2`.
pub open spec fn syscall2_text() -> Seq<Seq<char>> {
    seq![
        "    ;; -- syscall2 --"@,
        "    pop     rax                         ;; Syscall number"@,
        "    pop     rdi"@,
        "    pop     rsi"@,
        "    syscall"@,
        "    push    rax"@,
    ]
}

/// Emit the code for `syscall2`.
pub fn syscall2(b: &mut Builder)
    requires
        old(b).cursor_ok(),
    ensures
        final(b).same_but_active(*old(b)),
        final(b).active_v() == inserted_block(old(b).active_v(), old(b).insert_point, syscall2_text()),
{
    let mut lines: Vec<String> = Vec::new();
    lines.push(String::from_str("    ;; -- syscall2 --"));
    lines.push(String::from_str("    pop     rax                         ;; Syscall number"));
    lines.push(String::from_str("    pop     rdi"));
    lines.push(String::from_str("    pop     rsi"));
    lines.push(String::from_str("    syscall"));
    lines.push(String::from_str("    push    rax"));
    proof {
        assert(lines_view(lines@) =~= syscall2_text());
    }
    insert_block(b, lines);
}

/// The lines emitted for `syscall3`.
pub open spec fn syscall3_text() -> Seq<Seq<char>> {
    seq![
        "    ;; -- syscall3 --"@,
        "    pop     rax                         ;; Syscall number"@,
        "    pop     rdi"@,
        "    pop     rsi"@,
        "    pop     rdx"@,
        "    syscall"@,
        "    push    rax"@,
    ]
}

/// Emit the code for `syscall3`.
pub fn syscall3(b: &mut Builder)
    requires
        old(b).cursor_ok(),
    ensures
        final(b).same_but_active(*old(b)),
        final(b).active_v() == inserted_block(old(b).active_v(), old(b).insert_point, syscall3_text()),
{
    let mut lines: Vec<String> = Vec::new();
    lines.push(String::from_str("    ;; -- syscall3 --"));
    lines.push(String::from_str("    pop     rax                         ;; Syscall number"));
    lines.push(String::from_str("    pop     rdi"));
    lines.push(String::from_str("    pop     rsi"));
    lines.push(String::from_str("    pop     rdx"));
    lines.push(String::from_str("    syscall"));
    lines.push(String::from_str("    push    rax"));
    proof {
        assert(lines_view(lines@) =~= syscall3_text());
    }
    insert_block(b, lines);
}

/// The lines emitted for `syscall4`.
pub open spec fn syscall4_text() -> Seq<Seq<char>> {
    seq![
        "    ;; -- syscall4 --"@,
        "    pop     rax                         ;; Syscall number"@,
        "    pop     rdi"@,
        "    pop     rsi"@,
        "    pop     rdx"@,
        "    pop     r10"@,
        "    syscall"@,
        "    push    rax"@,
    ]
}

/// Emit the code for `syscall4`.
pub fn syscall4(b: &mut Builder)
    requires
        old(b).cursor_ok(),
    ensures
        final(b).same_but_active(*old(b)),
        final(b).active_v() == inserted_block(old(b).active_v(), old(b).insert_point, syscall4_text()),
{
    let mut lines: Vec<String> = Vec::new();
    lines.push(String::from_str("    ;; -- syscall4 --"));
    lines.push(String::from_str("    pop     rax                         ;; Syscall number"));
    lines.push(String::from_str("    pop     rdi"));
    lines.push(String::from_str("    pop     rsi"));
    lines.push(String::from_str("    pop     rdx"));
    lines.push(String::from_str("    pop     r10"));
    lines.push(String::from_str("    syscall"));
    lines.push(String::from_str("    push    rax"));
    proof {
        assert(lines_view(lines@) =~= syscall4_text());
    }
    insert_block(b, lines);
}

/// The lines emitted for `syscall5`.
pub open spec fn syscall5_text() -> Seq<Seq<char>> {
    seq![
        "    ;; -- syscall5 --"@,
        "    pop     rax                         ;; Syscall number"@,
        "    pop     rdi"@,
        "    pop     rsi"@,
        "    pop     rdx"@,
        "    pop     r10"@,
        "    pop     r8"@,
        "    syscall"@,
        "    push    rax"@,
    ]
}

/// Emit the code for `syscall5`.
pub fn syscall5(b: &mut Builder)
    requires
        old(b).cursor_ok(),
    ensures
        final(b).same_but_active(*old(b)),
        final(b).active_v() == inserted_block(old(b).active_v(), old(b).insert_point, syscall5_text()),
{
    let mut lines: Vec<String> = Vec::new();
    lines.push(String::from_str("    ;; -- syscall5 --"));
    lines.push(String::from_str("    pop     rax                         ;; Syscall number"));
    lines.push(String::from_str("    pop     rdi"));
    lines.push(String::from_str("    pop     rsi"));
    lines.push(String::from_str("    pop     rdx"));
    lines.push(String::from_str("    pop     r10"));
    lines.push(String::from_str("    pop     r8"));
    lines.push(String::from_str("    syscall"));
    lines.push(String::from_str("    push    rax"));
    proof {
        assert(lines_view(lines@) =~= syscall5_text());
    }
    insert_block(b, lines);
}

/// The lines emitted for `syscall6`.
pub open spec fn syscall6_text() -> Seq<Seq<char>> {
    seq![
        "    ;; -- syscall6 --"@,
        "    pop     rax                         ;; Syscall number"@,
        "    pop     rdi"@,
        "    pop     rsi"@,
        "    pop     rdx"@,
        "    pop     r10"@,
        "    pop     r8"@,
        "    pop     r9"@,
        "    syscall"@,
        "    push    rax"@,
    ]
}

/// Emit the code for `syscall6`.
pub fn syscall6(b: &mut Builder)
    requires
        old(b).cursor_ok(),
    ensures
        final(b).same_but_active(*old(b)),
        final(b).active_v() == inserted_block(old(b).active_v(), old(b).insert_point, syscall6_text()),
{
    let mut lines: Vec<String> = Vec::new();
    lines.push(String::from_str("    ;; -- syscall6 --"));
    lines.push(String::from_str("    pop     rax                         ;; Syscall number"));
    lines.push(String::from_str("    pop     rdi"));
    lines.push(String::from_str("    pop     rsi"));
    lines.push(String::from_str("    pop     rdx"));
    lines.push(String::from_str("    pop     r10"));
    lines.push(String::from_str("    pop     r8"));
    lines.push(String::from_str("    pop     r9"));
    lines.push(String::from_str("    syscall"));
    lines.push(String::from_str("    push    rax"));
    proof {
        assert(lines_view(lines@) =~= syscall6_text());
    }
    insert_block(b, lines);
}

} // verus!
