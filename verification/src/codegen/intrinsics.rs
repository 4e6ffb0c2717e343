//! Assembly emitters for the stack-shuffle and environment intrinsics,
//! and the shared print routine they call into.

use vstd::prelude::*;
use crate::codegen::builder::{Builder, inserted_block, insert_block, lines_view};

verus! {

/// The lines emitted for the pointer cast (a no-op at runtime).
pub open spec fn castptr_text() -> Seq<Seq<char>> {
    seq![
        "    ;; -- Pointer cast --"@,
    ]
}

/// Emit the code for the pointer cast (a no-op at runtime).
pub fn castptr(b: &mut Builder)
    requires
        old(b).cursor_ok(),
    ensures
        final(b).same_but_active(*old(b)),
        final(b).active_v() == inserted_block(old(b).active_v(), old(b).insert_point, castptr_text()),
{
    let mut lines: Vec<String> = Vec::new();
    lines.push(String::from_str("    ;; -- Pointer cast --"));
    proof {
        assert(lines_view(lines@) =~= castptr_text());
    }
    insert_block(b, lines);
}

/// The lines emitted for `argv`.
pub open spec fn argv_text() -> Seq<Seq<char>> {
    seq![
        "    mov     rax, [args_ptr]"@,
        "    add     rax, 8"@,
        "    push    rax"@,
    ]
}

/// Emit the code for `argv`.
pub fn argv(b: &mut Builder)
    requires
        old(b).cursor_ok(),
    ensures
        final(b).same_but_active(*old(b)),
        final(b).active_v() == inserted_block(old(b).active_v(), old(b).insert_point, argv_text()),
{
    let mut lines: Vec<String> = Vec::new();
    lines.push(String::from_str("    mov     rax, [args_ptr]"));
    lines.push(String::from_str("    add     rax, 8"));
    lines.push(String::from_str("    push    rax"));
    proof {
        assert(lines_view(lines@) =~= argv_text());
    }
    insert_block(b, lines);
}

/// The lines emitted for `argc`.
pub open spec fn argc_text() -> Seq<Seq<char>> {
    seq![
        "    mov     rax, [args_ptr]"@,
        "    mov rax, [rax]"@,
        "    push    rax"@,
    ]
}

/// Emit the code for `argc`.
pub fn argc(b: &mut Builder)
    requires
        old(b).cursor_ok(),
    ensures
        final(b).same_but_active(*old(b)),
        final(b).active_v() == inserted_block(old(b).active_v(), old(b).insert_point, argc_text()),
{
    let mut lines: Vec<String> = Vec::new();
    lines.push(String::from_str("    mov     rax, [args_ptr]"));
    lines.push(String::from_str("    mov rax, [rax]"));
    lines.push(String::from_str("    push    rax"));
    proof {
        assert(lines_view(lines@) =~= argc_text());
    }
    insert_block(b, lines);
}

/// The lines emitted for `panic`: exit with status 1.
pub open spec fn panic_text() -> Seq<Seq<char>> {
    seq![
        "    ;; -- panic --"@,
        "    ;; -- syscall (1) 60: Exit --"@,
        "    mov     rax, 60"@,
        "    mov     rdi, 1"@,
        "    syscall"@,
    ]
}

/// Emit the code for `panic`: exit with status 1.
pub fn panic(b: &mut Builder)
    requires
        old(b).cursor_ok(),
    ensures
        final(b).same_but_active(*old(b)),
        final(b).active_v() == inserted_block(old(b).active_v(), old(b).insert_point, panic_text()),
{
    let mut lines: Vec<String> = Vec::new();
    lines.push(String::from_str("    ;; -- panic --"));
    lines.push(String::from_str("    ;; -- syscall (1) 60: Exit --"));
    lines.push(String::from_str("    mov     rax, 60"));
    lines.push(String::from_str("    mov     rdi, 1"));
    lines.push(String::from_str("    syscall"));
    proof {
        assert(lines_view(lines@) =~= panic_text());
    }
    insert_block(b, lines);
}

/// The lines emitted for `print`.
pub open spec fn print_text() -> Seq<Seq<char>> {
    seq![
        "    pop     rdi                         ;; Load argument to rdi"@,
        "    call    intrinsic_print"@,
    ]
}

/// Emit the code for `print`.
pub fn print(b: &mut Builder)
    requires
        old(b).cursor_ok(),
    ensures
        final(b).same_but_active(*old(b)),
        final(b).active_v() == inserted_block(old(b).active_v(), old(b).insert_point, print_text()),
{
    let mut lines: Vec<String> = Vec::new();
    lines.push(String::from_str("    pop     rdi                         ;; Load argument to rdi"));
    lines.push(String::from_str("    call    intrinsic_print"));
    proof {
        assert(lines_view(lines@) =~= print_text());
    }
    insert_block(b, lines);
}

/// The lines emitted for `dup`.
pub open spec fn dup_text() -> Seq<Seq<char>> {
    seq![
        "    pop     rax"@,
        "    push    rax"@,
        "    push    rax"@,
    ]
}

/// Emit the code for `dup`.
pub fn dup(b: &mut Builder)
    requires
        old(b).cursor_ok(),
    ensures
        final(b).same_but_active(*old(b)),
        final(b).active_v() == inserted_block(old(b).active_v(), old(b).insert_point, dup_text()),
{
    let mut lines: Vec<String> = Vec::new();
    lines.push(String::from_str("    pop     rax"));
    lines.push(String::from_str("    push    rax"));
    lines.push(String::from_str("    push    rax"));
    proof {
        assert(lines_view(lines@) =~= dup_text());
    }
    insert_block(b, lines);
}

/// The lines emitted for `2dup`.
pub open spec fn dup2_text() -> Seq<Seq<char>> {
    seq![
        "    pop     rax                         ;; ( x1 x2 -> x1 x2 x1 x2 )"@,
        "    pop     rbx"@,
        "    push    rbx"@,
        "    push    rax"@,
        "    push    rbx"@,
        "    push    rax"@,
    ]
}

/// Emit the code for `2dup`.
pub fn dup2(b: &mut Builder)
    requires
        old(b).cursor_ok(),
    ensures
        final(b).same_but_active(*old(b)),
        final(b).active_v() == inserted_block(old(b).active_v(), old(b).insert_point, dup2_text()),
{
    let mut lines: Vec<String> = Vec::new();
    lines.push(String::from_str("    pop     rax                         ;; ( x1 x2 -> x1 x2 x1 x2 )"));
    lines.push(String::from_str("    pop     rbx"));
    lines.push(String::from_str("    push    rbx"));
    lines.push(String::from_str("    push    rax"));
    lines.push(String::from_str("    push    rbx"));
    lines.push(String::from_str("    push    rax"));
    proof {
        assert(lines_view(lines@) =~= dup2_text());
    }
    insert_block(b, lines);
}

/// The lines emitted for `drop`.
pub open spec fn drop_text() -> Seq<Seq<char>> {
    seq![
        "    pop     rax"@,
    ]
}

/// Emit the code for `drop`.
pub fn drop(b: &mut Builder)
    requires
        old(b).cursor_ok(),
    ensures
        final(b).same_but_active(*old(b)),
        final(b).active_v() == inserted_block(old(b).active_v(), old(b).insert_point, drop_text()),
{
    let mut lines: Vec<String> = Vec::new();
    lines.push(String::from_str("    pop     rax"));
    proof {
        assert(lines_view(lines@) =~= drop_text());
    }
    insert_block(b, lines);
}

/// The lines emitted for `2drop`.
pub open spec fn drop2_text() -> Seq<Seq<char>> {
    seq![
        "    pop     rax"@,
        "    pop     rbx"@,
    ]
}

/// Emit the code for `2drop`.
pub fn drop2(b: &mut Builder)
    requires
        old(b).cursor_ok(),
    ensures
        final(b).same_but_active(*old(b)),
        final(b).active_v() == inserted_block(old(b).active_v(), old(b).insert_point, drop2_text()),
{
    let mut lines: Vec<String> = Vec::new();
    lines.push(String::from_str("    pop     rax"));
    lines.push(String::from_str("    pop     rbx"));
    proof {
        assert(lines_view(lines@) =~= drop2_text());
    }
    insert_block(b, lines);
}

/// The lines emitted for `over`.
pub open spec fn over_text() -> Seq<Seq<char>> {
    seq![
        "    pop     rax"@,
        "    pop     rbx"@,
        "    push    rbx"@,
        "    push    rax"@,
        "    push    rbx"@,
    ]
}

/// Emit the code for `over`.
pub fn over(b: &mut Builder)
    requires
        old(b).cursor_ok(),
    ensures
        final(b).same_but_active(*old(b)),
        final(b).active_v() == inserted_block(old(b).active_v(), old(b).insert_point, over_text()),
{
    let mut lines: Vec<String> = Vec::new();
    lines.push(String::from_str("    pop     rax"));
    lines.push(String::from_str("    pop     rbx"));
    lines.push(String::from_str("    push    rbx"));
    lines.push(String::from_str("    push    rax"));
    lines.push(String::from_str("    push    rbx"));
    proof {
        assert(lines_view(lines@) =~= over_text());
    }
    insert_block(b, lines);
}

/// The lines emitted for `swap`.
pub open spec fn swap_text() -> Seq<Seq<char>> {
    seq![
        "    pop     rax"@,
        "    pop     rbx"@,
        "    push    rax"@,
        "    push    rbx"@,
    ]
}

/// Emit the code for `swap`.
pub fn swap(b: &mut Builder)
    requires
        old(b).cursor_ok(),
    ensures
        final(b).same_but_active(*old(b)),
        final(b).active_v() == inserted_block(old(b).active_v(), old(b).insert_point, swap_text()),
{
    let mut lines: Vec<String> = Vec::new();
    lines.push(String::from_str("    pop     rax"));
    lines.push(String::from_str("    pop     rbx"));
    lines.push(String::from_str("    push    rax"));
    lines.push(String::from_str("    push    rbx"));
    proof {
        assert(lines_view(lines@) =~= swap_text());
    }
    insert_block(b, lines);
}

/// The lines emitted for `mem`.
pub open spec fn mem_text() -> Seq<Seq<char>> {
    seq![
        "    push    mem"@,
    ]
}

/// Emit the code for `mem`.
pub fn mem(b: &mut Builder)
    requires
        old(b).cursor_ok(),
    ensures
        final(b).same_but_active(*old(b)),
        final(b).active_v() == inserted_block(old(b).active_v(), old(b).insert_point, mem_text()),
{
    let mut lines: Vec<String> = Vec::new();
    lines.push(String::from_str("    push    mem"));
    proof {
        assert(lines_view(lines@) =~= mem_text());
    }
    insert_block(b, lines);
}

/// The lines emitted for the shared `intrinsic_print` routine.
pub open spec fn gen_intrinsics_text() -> Seq<Seq<char>> {
    seq![
        "intrinsic_print:"@,
        "    push    rbp"@,
        "    mov     rbp, rsp"@,
        "    sub     rsp, 64"@,
        "    mov     qword [rbp - 8], rdi"@,
        "    mov     qword [rbp - 56], 1"@,
        "    mov     eax, 32"@,
        "    sub     rax, qword [rbp - 56]"@,
        "    mov     byte [rbp + rax - 48], 10"@,
        ".intrinsic_print_body:"@,
        "    mov     rax, qword [rbp - 8]"@,
        "    mov     ecx, 10"@,
        "    xor     edx, edx"@,
        "    div     rcx"@,
        "    add     rdx, 48"@,
        "    mov     cl, dl"@,
        "    mov     eax, 32"@,
        "    sub     rax, qword [rbp - 56]"@,
        "    sub     rax, 1"@,
        "    mov     byte [rbp + rax - 48], cl"@,
        "    mov     rax, qword [rbp - 56]"@,
        "    add     rax, 1"@,
        "    mov     qword [rbp - 56], rax"@,
        "    mov     rax, qword [rbp - 8]"@,
        "    mov     ecx, 10"@,
        "    xor     edx, edx"@,
        "    div     rcx"@,
        "    mov     qword [rbp - 8], rax"@,
        "    cmp     qword [rbp - 8], 0"@,
        "    jne     .intrinsic_print_body"@,
        "    mov     eax, 32"@,
        "    sub     rax, qword [rbp - 56]"@,
        "    lea     rsi, [rbp - 48]"@,
        "    add     rsi, rax"@,
        "    mov     rdx, qword [rbp - 56]"@,
        "    mov     edi, 1"@,
        "    mov     rax, 1"@,
        "    syscall"@,
        "    add     rsp, 64"@,
        "    pop     rbp"@,
        "    ret "@,
    ]
}

/// Emit the code for the shared `intrinsic_print` routine.
pub fn gen_intrinsics(b: &mut Builder)
    requires
        old(b).cursor_ok(),
    ensures
        final(b).same_but_active(*old(b)),
        final(b).active_v() == inserted_block(old(b).active_v(), old(b).insert_point, gen_intrinsics_text()),
{
    let mut lines: Vec<String> = Vec::new();
    lines.push(String::from_str("intrinsic_print:"));
    lines.push(String::from_str("    push    rbp"));
    lines.push(String::from_str("    mov     rbp, rsp"));
    lines.push(String::from_str("    sub     rsp, 64"));
    lines.push(String::from_str("    mov     qword [rbp - 8], rdi"));
    lines.push(String::from_str("    mov     qword [rbp - 56], 1"));
    lines.push(String::from_str("    mov     eax, 32"));
    lines.push(String::from_str("    sub     rax, qword [rbp - 56]"));
    lines.push(String::from_str("    mov     byte [rbp + rax - 48], 10"));
    lines.push(String::from_str(".intrinsic_print_body:"));
    lines.push(String::from_str("    mov     rax, qword [rbp - 8]"));
    lines.push(String::from_str("    mov     ecx, 10"));
    lines.push(String::from_str("    xor     edx, edx"));
    lines.push(String::from_str("    div     rcx"));
    lines.push(String::from_str("    add     rdx, 48"));
    lines.push(String::from_str("    mov     cl, dl"));
    lines.push(String::from_str("    mov     eax, 32"));
    lines.push(String::from_str("    sub     rax, qword [rbp - 56]"));
    lines.push(String::from_str("    sub     rax, 1"));
    lines.push(String::from_str("    mov     byte [rbp + rax - 48], cl"));
    lines.push(String::from_str("    mov     rax, qword [rbp - 56]"));
    lines.push(String::from_str("    add     rax, 1"));
    lines.push(String::from_str("    mov     qword [rbp - 56], rax"));
    lines.push(String::from_str("    mov     rax, qword [rbp - 8]"));
    lines.push(String::from_str("    mov     ecx, 10"));
    lines.push(String::from_str("    xor     edx, edx"));
    lines.push(String::from_str("    div     rcx"));
    lines.push(String::from_str("    mov     qword [rbp - 8], rax"));
    lines.push(String::from_str("    cmp     qword [rbp - 8], 0"));
    lines.push(String::from_str("    jne     .intrinsic_print_body"));
    lines.push(String::from_str("    mov     eax, 32"));
    lines.push(String::from_str("    sub     rax, qword [rbp - 56]"));
    lines.push(String::from_str("    lea     rsi, [rbp - 48]"));
    lines.push(String::from_str("    add     rsi, rax"));
    lines.push(String::from_str("    mov     rdx, qword [rbp - 56]"));
    lines.push(String::from_str("    mov     edi, 1"));
    lines.push(String::from_str("    mov     rax, 1"));
    lines.push(String::from_str("    syscall"));
    lines.push(String::from_str("    add     rsp, 64"));
    lines.push(String::from_str("    pop     rbp"));
    lines.push(String::from_str("    ret "));
    proof {
        assert(lines_view(lines@) =~= gen_intrinsics_text());
    }
    insert_block(b, lines);
}

} // verus!
