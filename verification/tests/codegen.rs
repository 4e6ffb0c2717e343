use worthc::codegen::builder::{Builder, InsertPoint, Segment, SegmentKind};
use worthc::codegen::intrinsics;
use worthc::codegen::ops;
use worthc::error::{dec_str, dec_str64};
use worthc::instruction::{int_str, Intrinsic, Keyword, Op, SyscallKind};
use worthc::typecheck::ValType;

/// A fresh builder has three empty segments and the cursor on `bss`.
#[test]
fn builder_starts_empty() {
    let b = Builder::new();
    assert_eq!(b.count_lines(), 3);
    assert!(b.get_insert_segment().lines.is_empty());
}

/// The `add` emitter writes its comment and instruction lines at the end
/// of the active segment.
#[test]
fn add_emits_expected_lines() {
    let mut b = Builder::new();
    b.set_insert_segment(SegmentKind::Text);
    ops::add(&mut b);
    assert_eq!(
        b.text.lines,
        vec![
            "    ;; -- add --".to_string(),
            "    pop     rax".to_string(),
            "    pop     rbx".to_string(),
            "    add     rax, rbx".to_string(),
            "    push    rax".to_string(),
        ]
    );
    // the other segments are untouched
    assert!(b.bss.lines.is_empty());
    assert!(b.data.lines.is_empty());
}

/// Comparison emitters use the conditional-move pattern.
#[test]
fn lt_emits_conditional_move() {
    let mut b = Builder::new();
    b.set_insert_segment(SegmentKind::Text);
    ops::lt(&mut b);
    assert_eq!(b.text.lines[6], "    cmovl   rcx, rdx");
    assert_eq!(b.text.lines.len(), 8);
}

/// Syscall emitters pop the number and one register per argument.
#[test]
fn syscall3_pops_four_cells() {
    let mut b = Builder::new();
    b.set_insert_segment(SegmentKind::Text);
    ops::syscall3(&mut b);
    assert_eq!(
        b.text.lines,
        vec![
            "    ;; -- syscall3 --".to_string(),
            "    pop     rax                         ;; Syscall number".to_string(),
            "    pop     rdi".to_string(),
            "    pop     rsi".to_string(),
            "    pop     rdx".to_string(),
            "    syscall".to_string(),
            "    push    rax".to_string(),
        ]
    );
}

/// The `swap` intrinsic emitter exchanges the two top cells.
#[test]
fn swap_emits_expected_lines() {
    let mut b = Builder::new();
    b.set_insert_segment(SegmentKind::Text);
    intrinsics::swap(&mut b);
    assert_eq!(
        b.text.lines,
        vec![
            "    pop     rax".to_string(),
            "    pop     rbx".to_string(),
            "    push    rax".to_string(),
            "    push    rbx".to_string(),
        ]
    );
}

/// The shared print routine starts with its label and ends returning.
#[test]
fn print_routine_is_bracketed() {
    let mut b = Builder::new();
    b.set_insert_segment(SegmentKind::Text);
    intrinsics::gen_intrinsics(&mut b);
    assert_eq!(b.text.lines[0], "intrinsic_print:");
    assert_eq!(b.text.lines[9], ".intrinsic_print_body:");
    assert_eq!(b.text.lines.last().unwrap(), "    ret ");
}

/// Interned strings land in the data segment under numbered labels, with
/// their bytes in decimal, and the cursor is restored.
#[test]
fn const_strings_are_interned() {
    let mut b = Builder::new();
    b.set_insert_segment(SegmentKind::Text);
    b.set_insert_point(InsertPoint::Start);
    let first = b.new_const_str("Hi");
    let second = b.new_const_str("");
    assert_eq!(first, 0);
    assert_eq!(second, 1);
    assert_eq!(
        b.data.lines,
        vec![
            "const_str_0:".to_string(),
            "    db      72, 105".to_string(),
            "const_str_1:".to_string(),
            "    db      ".to_string(),
        ]
    );
    assert!(matches!(b.insert_segment, SegmentKind::Text));
    assert!(matches!(b.insert_point, InsertPoint::Start));
}

/// Cursor modes: lines land at the start, the end, or a fixed index of
/// the active segment.
#[test]
fn cursor_modes_place_lines() {
    let mut b = Builder::new();
    b.set_insert_segment(SegmentKind::Text);
    b.insert("second".to_string());
    b.insert("third".to_string());
    b.set_insert_point(InsertPoint::Start);
    b.insert("first".to_string());
    b.set_insert_point(InsertPoint::Line(1));
    b.insert("middle".to_string());
    assert_eq!(b.text.lines, vec!["first", "middle", "second", "third"]);
    assert_eq!(b.count_lines(), 7);
}

/// Rendering joins each segment's lines under its header.
#[test]
fn finalize_renders_segments() {
    let mut b = Builder::new();
    b.insert("mem:".to_string());
    b.set_insert_segment(SegmentKind::Text);
    b.insert("    ret ".to_string());
    let text = b.finalize();
    assert_eq!(
        text,
        "segment .bss\nmem:\n\nsegment .text\n    ret \n\nsegment .data\n\n\n"
    );
}

/// A segment joins its lines with the given separator.
#[test]
fn segment_join_uses_separator() {
    let mut s = Segment::new();
    assert_eq!(s.join("\n"), "");
    s.push("a".to_string());
    assert_eq!(s.join("\n"), "a");
    s.push("b".to_string());
    s.insert(1, "c".to_string());
    assert_eq!(s.join("-"), "a-c-b");
}

/// Decimal rendering of counters, bytes and signed literals.
#[test]
fn decimal_rendering() {
    assert_eq!(dec_str(0), "0");
    assert_eq!(dec_str(907), "907");
    assert_eq!(dec_str64(18446744073709551615), "18446744073709551615");
    assert_eq!(int_str(-42), "-42");
    assert_eq!(int_str(i64::MIN), "-9223372036854775808");
    assert_eq!(int_str(7), "7");
}

/// Display text of instruction payload variants.
#[test]
fn payload_display_text() {
    assert_eq!(Op::Add.text(), "+");
    assert_eq!(Op::Load64.text(), ",64");
    assert_eq!(Op::Mod.text(), "mod");
    assert_eq!(Keyword::If.text(), "if");
    assert_eq!(Keyword::Macro.text(), "macro");
    assert_eq!(Intrinsic::Dup2.text(), "2dup");
    assert_eq!(Intrinsic::CastPtr.text(), "cast(ptr)");
    assert_eq!(SyscallKind::Syscall6.text(), "syscall6");
}

/// Display text of symbolic value types.
#[test]
fn val_type_display_text() {
    assert_eq!(ValType::Int.text(), "int");
    assert_eq!(ValType::Ptr.text(), "ptr");
}
