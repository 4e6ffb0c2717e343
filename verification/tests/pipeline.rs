use worthc::error::{err_loc, err_spread, kw_str, Error, PreprocessorError, TypecheckError};
use worthc::instruction::{
    Instruction, InstructionKind, Intrinsic, Keyword, Loc, Op, Program, SyscallKind, Value,
};
use worthc::preprocessor::{expand_macros, collect_macros, includes, ips, process, SourceFile, SourceSet};
use worthc::resolver::jumps;
use worthc::typecheck::typecheck;

fn loc(line: usize, col: usize) -> Loc {
    Loc { file: String::from("main.porth"), line, col }
}

fn ins(kind: InstructionKind) -> Instruction {
    Instruction::new(kind, loc(1, 1))
}

fn program_of(kinds: Vec<InstructionKind>) -> Program {
    Program {
        name: String::from("main"),
        base_path: String::new(),
        instructions: kinds.into_iter().map(ins).collect(),
        macros: Vec::new(),
    }
}

fn empty_sources() -> SourceSet {
    SourceSet { files: Vec::new() }
}

fn push_int(i: i64) -> InstructionKind {
    InstructionKind::Push(Value::Int(i))
}

fn push_bool(b: bool) -> InstructionKind {
    InstructionKind::Push(Value::Bool(b))
}

fn kw(k: Keyword) -> InstructionKind {
    InstructionKind::Keyword(k)
}

fn unresolved_do() -> InstructionKind {
    kw(Keyword::Do { false_target: None })
}

fn unresolved_else() -> InstructionKind {
    kw(Keyword::Else { self_ip: None, converge_target: None })
}

fn unresolved_elif() -> InstructionKind {
    kw(Keyword::Elif { self_ip: None, converge_target: None })
}

fn unresolved_end() -> InstructionKind {
    kw(Keyword::End { self_ip: None, loop_back_target: None })
}

fn unresolved_while() -> InstructionKind {
    kw(Keyword::While { self_ip: None })
}

/// Straight-line arithmetic: no macros, no keywords; expansion and
/// resolution are no-ops and the typechecker accepts.
#[test]
fn straight_line_program_is_accepted() {
    let p = program_of(vec![
        push_int(1),
        push_int(2),
        InstructionKind::Op(Op::Add),
        InstructionKind::Intrinsic(Intrinsic::Print),
    ]);
    let out = process(&p, &empty_sources()).expect("pipeline should accept");
    assert_eq!(out.instructions.len(), 4);
    // resolution was a no-op: the instruction kinds are unchanged
    assert!(matches!(out.instructions[0].kind, InstructionKind::Push(Value::Int(1))));
    assert!(matches!(out.instructions[2].kind, InstructionKind::Op(Op::Add)));
    // instruction pointers were assigned
    for (i, inst) in out.instructions.iter().enumerate() {
        assert_eq!(inst.ip, i);
    }
    assert!(typecheck(&out).is_ok());
}

/// An if/else chain: the resolver patches `Do.false_target` to the
/// `else`'s position and `Else.converge_target` to the `end`'s position,
/// and the typechecker accepts since both arms leave the same stack.
#[test]
fn if_else_targets_are_patched() {
    let p = program_of(vec![
        kw(Keyword::If),                                  // 0
        push_bool(true),                                  // 1
        unresolved_do(),                                  // 2
        push_int(2),                                      // 3
        InstructionKind::Intrinsic(Intrinsic::Print),     // 4
        unresolved_else(),                                // 5
        push_int(3),                                      // 6
        InstructionKind::Intrinsic(Intrinsic::Print),     // 7
        unresolved_end(),                                 // 8
    ]);
    let out = process(&p, &empty_sources()).expect("pipeline should accept");
    match out.instructions[2].kind {
        InstructionKind::Keyword(Keyword::Do { false_target }) => {
            assert_eq!(false_target, Some(5));
        }
        ref other => panic!("expected do, found {:?}", other),
    }
    match out.instructions[5].kind {
        InstructionKind::Keyword(Keyword::Else { self_ip, converge_target }) => {
            assert_eq!(self_ip, Some(5));
            assert_eq!(converge_target, Some(8));
        }
        ref other => panic!("expected else, found {:?}", other),
    }
    match out.instructions[8].kind {
        InstructionKind::Keyword(Keyword::End { self_ip, loop_back_target }) => {
            assert_eq!(self_ip, Some(8));
            assert_eq!(loop_back_target, None);
        }
        ref other => panic!("expected end, found {:?}", other),
    }
    assert!(typecheck(&out).is_ok());
}

/// An else-less conditional whose body pushes an extra `Int` without
/// consuming it fails typechecking with `InvalidEnd`.
#[test]
fn unbalanced_if_body_is_rejected() {
    let p = program_of(vec![
        kw(Keyword::If),
        push_bool(true),
        unresolved_do(),
        push_int(2),
        unresolved_end(),
    ]);
    let out = process(&p, &empty_sources()).expect("resolution should accept");
    let f = typecheck(&out).expect_err("typechecking must reject");
    assert!(matches!(f.error, Error::TypecheckError(TypecheckError::InvalidEnd)));
}

/// A macro whose body invokes itself never reaches a fixpoint and fails
/// with the expansion-limit error.
#[test]
fn self_referential_macro_hits_the_cap() {
    let p = program_of(vec![
        kw(Keyword::Macro),
        InstructionKind::Name(String::from("foo")),
        InstructionKind::Name(String::from("foo")),
        unresolved_end(),
        InstructionKind::Name(String::from("foo")),
    ]);
    let f = process(&p, &empty_sources()).expect_err("expansion must hit the cap");
    assert!(matches!(
        f.error,
        Error::PreprocessorError(PreprocessorError::TooManyMacroExpansions)
    ));
}

/// An include whose path names no known source fails with a located
/// include-not-found error before any macro or typecheck stage runs.
#[test]
fn missing_include_is_reported() {
    let p = program_of(vec![
        kw(Keyword::Include),
        InstructionKind::Push(Value::Str(String::from("missing.src"))),
        // a self-referential macro after it would hit the expansion cap,
        // but the include failure must come first
        kw(Keyword::Macro),
        InstructionKind::Name(String::from("foo")),
        InstructionKind::Name(String::from("foo")),
        unresolved_end(),
        InstructionKind::Name(String::from("foo")),
    ]);
    let f = process(&p, &empty_sources()).expect_err("missing include must fail");
    match f.error {
        Error::PreprocessorError(PreprocessorError::IncludeNotFound(path)) => {
            assert_eq!(path, "missing.src");
        }
        other => panic!("expected include-not-found, found {:?}", other),
    }
    assert_eq!(f.loc.file, "main.porth");
}

/// Re-running the control-flow resolver on an already-resolved array does
/// not alter any jump slot.
#[test]
fn re_resolution_is_a_no_op() {
    let p = program_of(vec![
        unresolved_while(),
        push_bool(false),
        unresolved_do(),
        push_int(1),
        InstructionKind::Intrinsic(Intrinsic::Print),
        unresolved_end(),
    ]);
    let mut first = p.instructions.clone();
    ips(&mut first);
    let once = jumps(&first).expect("resolution should accept");
    let twice = jumps(&once).expect("re-resolution should accept");
    assert_eq!(format!("{:?}", once), format!("{:?}", twice));
}

/// Every jump slot of a resolved loop is populated with a valid index,
/// and the backedge pair agrees: `end.loop_back_target == while.self_ip`.
#[test]
fn loop_backedge_pair_agrees() {
    let p = program_of(vec![
        unresolved_while(),   // 0
        push_bool(true),      // 1
        unresolved_do(),      // 2
        unresolved_end(),     // 3
    ]);
    let out = process(&p, &empty_sources()).expect("pipeline should accept");
    match out.instructions[0].kind {
        InstructionKind::Keyword(Keyword::While { self_ip }) => assert_eq!(self_ip, Some(0)),
        ref other => panic!("expected while, found {:?}", other),
    }
    match out.instructions[2].kind {
        InstructionKind::Keyword(Keyword::Do { false_target }) => {
            assert_eq!(false_target, Some(3));
        }
        ref other => panic!("expected do, found {:?}", other),
    }
    match out.instructions[3].kind {
        InstructionKind::Keyword(Keyword::End { self_ip, loop_back_target }) => {
            assert_eq!(self_ip, Some(3));
            assert_eq!(loop_back_target, Some(0));
        }
        ref other => panic!("expected end, found {:?}", other),
    }
    assert!(typecheck(&out).is_ok());
}

/// A loop whose condition grows the stack is rejected: evaluating the
/// condition must be stack-neutral.
#[test]
fn non_neutral_loop_condition_is_rejected() {
    let p = program_of(vec![
        unresolved_while(),
        push_int(7),
        push_bool(true),
        unresolved_do(),
        unresolved_end(),
    ]);
    let out = process(&p, &empty_sources()).expect("resolution should accept");
    let f = typecheck(&out).expect_err("typechecking must reject");
    assert!(matches!(f.error, Error::TypecheckError(TypecheckError::InvalidLoop)));
}

/// Mismatched if/else arms are rejected with `InvalidEnd`: downstream
/// code cannot know which arm executed.
#[test]
fn diverging_arms_are_rejected() {
    let p = program_of(vec![
        kw(Keyword::If),
        push_bool(true),
        unresolved_do(),
        push_int(1),
        unresolved_else(),
        unresolved_end(),
    ]);
    let out = process(&p, &empty_sources()).expect("resolution should accept");
    let f = typecheck(&out).expect_err("typechecking must reject");
    assert!(matches!(f.error, Error::TypecheckError(TypecheckError::InvalidEnd)));
}

/// A three-armed if/elif/else chain: every arm's exit shape agrees, the
/// chain resolves with each false-branch chained to the next arm and all
/// convergence targets at the final `end`.
#[test]
fn elif_chain_resolves_and_converges() {
    let p = program_of(vec![
        kw(Keyword::If),                                  // 0
        push_bool(true),                                  // 1
        unresolved_do(),                                  // 2
        push_int(1),                                      // 3
        InstructionKind::Intrinsic(Intrinsic::Print),     // 4
        unresolved_elif(),                                // 5
        push_bool(false),                                 // 6
        unresolved_do(),                                  // 7
        push_int(2),                                      // 8
        InstructionKind::Intrinsic(Intrinsic::Print),     // 9
        unresolved_else(),                                // 10
        push_int(3),                                      // 11
        InstructionKind::Intrinsic(Intrinsic::Print),     // 12
        unresolved_end(),                                 // 13
    ]);
    let out = process(&p, &empty_sources()).expect("pipeline should accept");
    match out.instructions[2].kind {
        InstructionKind::Keyword(Keyword::Do { false_target }) => {
            assert_eq!(false_target, Some(5));
        }
        ref other => panic!("expected do, found {:?}", other),
    }
    match out.instructions[5].kind {
        InstructionKind::Keyword(Keyword::Elif { self_ip, converge_target }) => {
            assert_eq!(self_ip, Some(5));
            assert_eq!(converge_target, Some(13));
        }
        ref other => panic!("expected elif, found {:?}", other),
    }
    match out.instructions[7].kind {
        InstructionKind::Keyword(Keyword::Do { false_target }) => {
            assert_eq!(false_target, Some(10));
        }
        ref other => panic!("expected do, found {:?}", other),
    }
    match out.instructions[10].kind {
        InstructionKind::Keyword(Keyword::Else { self_ip, converge_target }) => {
            assert_eq!(self_ip, Some(10));
            assert_eq!(converge_target, Some(13));
        }
        ref other => panic!("expected else, found {:?}", other),
    }
    assert!(typecheck(&out).is_ok());
}

/// A non-self-referential macro set reaches its fixpoint: nested macro
/// references are fully inlined.
#[test]
fn nested_macros_reach_fixpoint() {
    let p = program_of(vec![
        kw(Keyword::Macro),
        InstructionKind::Name(String::from("one")),
        push_int(1),
        unresolved_end(),
        kw(Keyword::Macro),
        InstructionKind::Name(String::from("two")),
        InstructionKind::Name(String::from("one")),
        InstructionKind::Name(String::from("one")),
        unresolved_end(),
        InstructionKind::Name(String::from("two")),
        InstructionKind::Op(Op::Add),
        InstructionKind::Intrinsic(Intrinsic::Print),
    ]);
    let out = process(&p, &empty_sources()).expect("expansion should reach a fixpoint");
    let kinds: Vec<String> = out.instructions.iter().map(|i| format!("{:?}", i.kind)).collect();
    assert_eq!(kinds.len(), 4);
    assert!(matches!(out.instructions[0].kind, InstructionKind::Push(Value::Int(1))));
    assert!(matches!(out.instructions[1].kind, InstructionKind::Push(Value::Int(1))));
    assert!(matches!(out.instructions[2].kind, InstructionKind::Op(Op::Add)));
    assert!(typecheck(&out).is_ok());
    // both macros were recorded
    assert_eq!(out.macros.len(), 2);
}

/// A later macro definition with the same name overwrites the earlier
/// one: the last writer wins.
#[test]
fn duplicate_macro_definition_overwrites() {
    let p = program_of(vec![
        kw(Keyword::Macro),
        InstructionKind::Name(String::from("k")),
        push_int(1),
        unresolved_end(),
        kw(Keyword::Macro),
        InstructionKind::Name(String::from("k")),
        push_int(2),
        unresolved_end(),
        InstructionKind::Name(String::from("k")),
        InstructionKind::Intrinsic(Intrinsic::Print),
    ]);
    let out = process(&p, &empty_sources()).expect("expansion should accept");
    assert_eq!(out.macros.len(), 1);
    assert!(matches!(out.instructions[0].kind, InstructionKind::Push(Value::Int(2))));
}

/// Includes are spliced in place of the `include`/path pair, and the
/// included file's own includes resolve against its own base directory.
#[test]
fn include_splices_in_place() {
    let lib = SourceFile {
        path: String::from("lib.src"),
        base_path: String::new(),
        instructions: vec![ins(push_int(40)), ins(push_int(2))],
    };
    let sources = SourceSet { files: vec![lib] };
    let p = program_of(vec![
        kw(Keyword::Include),
        InstructionKind::Push(Value::Str(String::from("lib.src"))),
        InstructionKind::Op(Op::Add),
        InstructionKind::Intrinsic(Intrinsic::Print),
    ]);
    let out = process(&p, &sources).expect("include should resolve");
    assert_eq!(out.instructions.len(), 4);
    assert!(matches!(out.instructions[0].kind, InstructionKind::Push(Value::Int(40))));
    assert!(matches!(out.instructions[1].kind, InstructionKind::Push(Value::Int(2))));
    assert!(matches!(out.instructions[2].kind, InstructionKind::Op(Op::Add)));
    assert!(typecheck(&out).is_ok());
}

/// A file that includes itself exceeds the recursion depth cap and is
/// reported as a recursive include.
#[test]
fn cyclic_include_is_reported() {
    let selfref = SourceFile {
        path: String::from("loop.src"),
        base_path: String::new(),
        instructions: vec![
            ins(kw(Keyword::Include)),
            ins(InstructionKind::Push(Value::Str(String::from("loop.src")))),
        ],
    };
    let sources = SourceSet { files: vec![selfref] };
    let p = program_of(vec![
        kw(Keyword::Include),
        InstructionKind::Push(Value::Str(String::from("loop.src"))),
    ]);
    let f = process(&p, &sources).expect_err("cycle must be reported");
    assert!(matches!(
        f.error,
        Error::PreprocessorError(PreprocessorError::RecursiveInclude)
    ));
}

/// An `include` whose argument is not a string literal is rejected with a
/// distinct, located error.
#[test]
fn non_string_include_argument_is_rejected() {
    let p = program_of(vec![kw(Keyword::Include), push_int(3)]);
    let f = process(&p, &empty_sources()).expect_err("invalid include must fail");
    match f.error {
        Error::PreprocessorError(PreprocessorError::InvalidInclude(m)) => {
            assert_eq!(m, "3");
        }
        other => panic!("expected invalid include, found {:?}", other),
    }
}

/// A `here` intrinsic becomes a pushed string literal naming its own
/// source location, which the typechecker sees as a string push.
#[test]
fn here_becomes_location_literal() {
    let mut p = program_of(vec![InstructionKind::Intrinsic(Intrinsic::Here)]);
    p.instructions[0].loc = Loc { file: String::from("spot.porth"), line: 3, col: 7 };
    let out = process(&p, &empty_sources()).expect("pipeline should accept");
    match &out.instructions[0].kind {
        InstructionKind::Push(Value::Str(s)) => assert_eq!(s, "spot.porth:3:7"),
        other => panic!("expected pushed string, found {:?}", other),
    }
}

/// A `do` outside any open block is rejected, naming what it followed.
#[test]
fn stray_do_is_rejected() {
    let p = program_of(vec![push_bool(true), unresolved_do()]);
    let f = process(&p, &empty_sources()).expect_err("stray do must fail");
    match f.error {
        Error::PreprocessorError(PreprocessorError::UnexpectedKeyword(m)) => {
            assert_eq!(m, "do following nothing");
        }
        other => panic!("expected unexpected-keyword, found {:?}", other),
    }
}

/// End of input with a block still open names the open keyword.
#[test]
fn unclosed_block_is_reported() {
    let p = program_of(vec![unresolved_while(), push_bool(true), unresolved_do()]);
    let f = process(&p, &empty_sources()).expect_err("unclosed loop must fail");
    match f.error {
        Error::PreprocessorError(PreprocessorError::UnclosedBlock(m)) => {
            assert_eq!(m, "while ... do");
        }
        other => panic!("expected unclosed block, found {:?}", other),
    }
}

/// End of input inside a macro definition is an unclosed `macro`.
#[test]
fn unclosed_macro_is_reported() {
    let p = program_of(vec![
        kw(Keyword::Macro),
        InstructionKind::Name(String::from("m")),
        push_int(1),
    ]);
    let f = process(&p, &empty_sources()).expect_err("unclosed macro must fail");
    match f.error {
        Error::PreprocessorError(PreprocessorError::UnclosedBlock(m)) => {
            assert_eq!(m, "macro");
        }
        other => panic!("expected unclosed block, found {:?}", other),
    }
}

/// Popping more operands than the stack holds is a stack underflow.
#[test]
fn underflow_is_reported() {
    let p = program_of(vec![push_int(1), InstructionKind::Op(Op::Add)]);
    let out = process(&p, &empty_sources()).expect("resolution should accept");
    let f = typecheck(&out).expect_err("typechecking must reject");
    assert!(matches!(f.error, Error::TypecheckError(TypecheckError::StackUnderflow)));
}

/// Two pointer operands to `+` are an unsupported combination, reported
/// with the offending instruction's display text.
#[test]
fn pointer_addition_is_rejected() {
    let p = program_of(vec![
        InstructionKind::Intrinsic(Intrinsic::Mem),
        InstructionKind::Intrinsic(Intrinsic::Mem),
        InstructionKind::Op(Op::Add),
    ]);
    let out = process(&p, &empty_sources()).expect("resolution should accept");
    let f = typecheck(&out).expect_err("typechecking must reject");
    match f.error {
        Error::TypecheckError(TypecheckError::InvalidTypeForOp(m)) => assert_eq!(m, "+"),
        other => panic!("expected invalid type, found {:?}", other),
    }
    assert_eq!(f.ip, 2);
}

/// Residue other than a single `Int` exit code at the end of the program
/// is an invalid final stack.
#[test]
fn leftover_stack_is_rejected() {
    let p = program_of(vec![push_int(1), push_int(2)]);
    let out = process(&p, &empty_sources()).expect("resolution should accept");
    let f = typecheck(&out).expect_err("typechecking must reject");
    assert!(matches!(f.error, Error::TypecheckError(TypecheckError::InvalidStack)));
    // a single Int exit code is fine
    let p2 = program_of(vec![push_int(1)]);
    let out2 = process(&p2, &empty_sources()).expect("resolution should accept");
    assert!(typecheck(&out2).is_ok());
}

/// An unexpanded macro reference at typecheck time is an upstream-stage
/// defect, never silently skipped.
#[test]
fn unexpanded_name_fails_typecheck() {
    let p = program_of(vec![InstructionKind::Name(String::from("ghostly"))]);
    let f = typecheck(&p).expect_err("names must not survive to typechecking");
    assert!(matches!(f.error, Error::TypecheckError(TypecheckError::MacroInCode)));
    let p2 = program_of(vec![kw(Keyword::Include), InstructionKind::Push(Value::Str(String::from("x")))]);
    let f2 = typecheck(&p2).expect_err("includes must not survive to typechecking");
    assert!(matches!(f2.error, Error::TypecheckError(TypecheckError::IncludeInCode)));
}

/// The helpers that render diagnostics produce the documented text.
#[test]
fn diagnostic_helpers_render() {
    assert_eq!(kw_str("whiledo"), "while ... do");
    assert_eq!(kw_str("ifdo"), "if ... do");
    assert_eq!(kw_str("elifdo"), "elif ... do");
    assert_eq!(kw_str("other"), "other");
    let l = Loc { file: String::from("a.porth"), line: 12, col: 40 };
    assert_eq!(err_loc(&l), "a.porth:12:40");
}

/// Direct use of the expansion pass: definitions are stripped and free
/// references replaced by fresh copies of the body.
#[test]
fn one_expansion_pass_substitutes() {
    let insts = vec![
        ins(kw(Keyword::Macro)),
        ins(InstructionKind::Name(String::from("two"))),
        ins(push_int(2)),
        ins(unresolved_end()),
        ins(InstructionKind::Name(String::from("two"))),
        ins(InstructionKind::Name(String::from("two"))),
    ];
    let mut macros = Vec::new();
    collect_macros(&insts, &mut macros).expect("collection should accept");
    assert_eq!(macros.len(), 1);
    assert_eq!(macros[0].name, "two");
    assert_eq!(macros[0].body.len(), 1);
    assert_eq!(macros[0].loc.start, 0);
    assert_eq!(macros[0].loc.end, 3);
    let (out, changed) = expand_macros(&insts, &macros).expect("expansion should accept");
    assert!(changed);
    assert_eq!(out.len(), 2);
    assert!(matches!(out[0].kind, InstructionKind::Push(Value::Int(2))));
    assert!(matches!(out[1].kind, InstructionKind::Push(Value::Int(2))));
}

/// Direct use of the include resolver: a missing file names the path.
#[test]
fn include_lookup_uses_base_directory() {
    let lib = SourceFile {
        path: String::from("dir/lib.src"),
        base_path: String::from("dir"),
        instructions: vec![ins(push_int(5))],
    };
    let sources = SourceSet { files: vec![lib] };
    let insts = vec![
        ins(kw(Keyword::Include)),
        ins(InstructionKind::Push(Value::Str(String::from("lib.src")))),
    ];
    let out = includes(&insts, &sources, "dir", 0).expect("include should resolve");
    assert_eq!(out.len(), 1);
    assert!(matches!(out[0].kind, InstructionKind::Push(Value::Int(5))));
    let missing = includes(&insts, &sources, "", 0).expect_err("wrong base must fail");
    assert!(matches!(
        missing.error,
        Error::PreprocessorError(PreprocessorError::IncludeNotFound(_))
    ));
}

/// A located failure renders as `[file:line:col] [Stage] message`.
#[test]
fn fault_message_renders() {
    let p = program_of(vec![push_bool(true), unresolved_do()]);
    let f = process(&p, &empty_sources()).expect_err("stray do must fail");
    assert_eq!(
        f.message(),
        "[main.porth:1:1] [Preprocessor Error] Unexpected keyword do following nothing"
    );
    let p2 = program_of(vec![push_int(1), InstructionKind::Op(Op::Add)]);
    let out2 = process(&p2, &empty_sources()).expect("resolution should accept");
    let f2 = typecheck(&out2).expect_err("underflow must fail");
    assert_eq!(f2.message(), "[main.porth:1:1] [Typecheck Error] Stack Underflow");
}

/// An `else` with no conditional snapshot is an invalid else.
#[test]
fn stray_else_fails_typecheck() {
    let p = program_of(vec![unresolved_else()]);
    let f = typecheck(&p).expect_err("stray else must fail");
    assert!(matches!(f.error, Error::TypecheckError(TypecheckError::InvalidElse)));
}

/// The resolver reports what an out-of-place keyword actually followed,
/// with the other relevant instruction as a secondary position.
#[test]
fn resolver_names_the_followed_block() {
    let insts = vec![
        ins(unresolved_while()),
        ins(push_bool(true)),
        ins(unresolved_do()),
        ins(unresolved_else()),
    ];
    let f = jumps(&insts).expect_err("else cannot close a loop");
    match f.error {
        Error::PreprocessorError(PreprocessorError::UnexpectedKeyword(m)) => {
            assert_eq!(m, "else following while ... do");
        }
        other => panic!("expected unexpected-keyword, found {:?}", other),
    }
    assert_eq!(f.ip, 3);
    assert_eq!(f.secondary, Some(2));
}

/// Stack-shuffle intrinsics are agnostic to symbolic types: a swapped and
/// duplicated mixed stack still typechecks cell for cell.
#[test]
fn shuffles_track_cells() {
    // mem 1 swap , over drop drop drop  -> empty stack
    let p = program_of(vec![
        InstructionKind::Intrinsic(Intrinsic::Mem),   // [Ptr]
        push_int(1),                                  // [Ptr Int]
        InstructionKind::Intrinsic(Intrinsic::Swap),  // [Int Ptr]
        InstructionKind::Op(Op::Load),                // [Int Int]
        InstructionKind::Intrinsic(Intrinsic::Over),  // [Int Int Int]
        InstructionKind::Intrinsic(Intrinsic::Drop),
        InstructionKind::Intrinsic(Intrinsic::Drop),
        InstructionKind::Intrinsic(Intrinsic::Drop),
    ]);
    let out = process(&p, &empty_sources()).expect("resolution should accept");
    assert!(typecheck(&out).is_ok());
    // loading from an Int address is rejected
    let p2 = program_of(vec![push_int(1), InstructionKind::Op(Op::Load)]);
    let out2 = process(&p2, &empty_sources()).expect("resolution should accept");
    let f = typecheck(&out2).expect_err("load needs a pointer");
    assert!(matches!(
        f.error,
        Error::TypecheckError(TypecheckError::InvalidTypeForOp(_))
    ));
}

/// `divmod` pops two integers and pushes quotient and remainder.
#[test]
fn divmod_pushes_two_results() {
    let p = program_of(vec![
        push_int(17),
        push_int(5),
        InstructionKind::Op(Op::DivMod),
        InstructionKind::Intrinsic(Intrinsic::Print),
        InstructionKind::Intrinsic(Intrinsic::Print),
    ]);
    let out = process(&p, &empty_sources()).expect("resolution should accept");
    assert!(typecheck(&out).is_ok());
}

/// The casts move single cells between `Int` and the other types.
#[test]
fn casts_change_cell_types() {
    // 1 cast(ptr) , print  -> load through a cast pointer
    let p = program_of(vec![
        push_int(1),
        InstructionKind::Intrinsic(Intrinsic::CastPtr),
        InstructionKind::Op(Op::Load),
        InstructionKind::Intrinsic(Intrinsic::Print),
    ]);
    let out = process(&p, &empty_sources()).expect("resolution should accept");
    assert!(typecheck(&out).is_ok());
    // cast(int) of an Int is rejected
    let p2 = program_of(vec![push_int(1), InstructionKind::Intrinsic(Intrinsic::CastInt)]);
    let out2 = process(&p2, &empty_sources()).expect("resolution should accept");
    assert!(typecheck(&out2).is_err());
}

/// A syscall pops its number and its arguments and pushes the `Int`
/// return value.
#[test]
fn syscall_arity_is_checked() {
    let p = program_of(vec![
        push_int(1),
        push_int(2),
        push_int(3),
        push_int(60),
        InstructionKind::Syscall(SyscallKind::Syscall3),
    ]);
    let out = process(&p, &empty_sources()).expect("resolution should accept");
    assert!(typecheck(&out).is_ok());
    // one argument short
    let p2 = program_of(vec![
        push_int(2),
        push_int(3),
        push_int(60),
        InstructionKind::Syscall(SyscallKind::Syscall3),
    ]);
    let out2 = process(&p2, &empty_sources()).expect("resolution should accept");
    let f = typecheck(&out2).expect_err("missing argument must fail");
    assert!(matches!(f.error, Error::TypecheckError(TypecheckError::StackUnderflow)));
}

/// An empty program is accepted by every stage.
#[test]
fn empty_program_is_accepted() {
    let p = program_of(vec![]);
    let out = process(&p, &empty_sources()).expect("pipeline should accept");
    assert!(out.instructions.is_empty());
    assert!(typecheck(&out).is_ok());
}

/// A loop nested in a conditional resolves both layers of targets.
#[test]
fn nested_blocks_resolve() {
    let p = program_of(vec![
        kw(Keyword::If),       // 0
        push_bool(true),       // 1
        unresolved_do(),       // 2
        unresolved_while(),    // 3
        push_bool(false),      // 4
        unresolved_do(),       // 5
        unresolved_end(),      // 6
        unresolved_end(),      // 7
    ]);
    let out = process(&p, &empty_sources()).expect("pipeline should accept");
    match out.instructions[5].kind {
        InstructionKind::Keyword(Keyword::Do { false_target }) => {
            assert_eq!(false_target, Some(6));
        }
        ref other => panic!("expected do, found {:?}", other),
    }
    match out.instructions[6].kind {
        InstructionKind::Keyword(Keyword::End { loop_back_target, .. }) => {
            assert_eq!(loop_back_target, Some(3));
        }
        ref other => panic!("expected end, found {:?}", other),
    }
    match out.instructions[2].kind {
        InstructionKind::Keyword(Keyword::Do { false_target }) => {
            assert_eq!(false_target, Some(7));
        }
        ref other => panic!("expected do, found {:?}", other),
    }
    assert!(typecheck(&out).is_ok());
}

/// Bitwise `~` keeps its operand's type: `Bool` stays `Bool`.
#[test]
fn bitwise_not_keeps_bool() {
    let p = program_of(vec![
        kw(Keyword::If),
        push_bool(true),
        InstructionKind::Op(Op::BitwiseNot),
        unresolved_do(),
        unresolved_end(),
    ]);
    let out = process(&p, &empty_sources()).expect("resolution should accept");
    assert!(typecheck(&out).is_ok());
}

/// The source spread marks the fault and the other relevant instruction.
#[test]
fn err_spread_marks_the_fault() {
    let insts: Vec<Instruction> = vec![
        ins(unresolved_while()),
        ins(push_bool(true)),
        ins(unresolved_do()),
        ins(unresolved_else()),
    ];
    let f = jumps(&insts).expect_err("else cannot close a loop");
    let spread = err_spread(&insts, f.ip, f.secondary);
    assert_eq!(spread, "true >> do >>> else");
}

/// An `elif` chain without an `else`: the final `end` patches the last
/// `do`'s false branch and every pending convergence slot to itself.
#[test]
fn elif_without_else_converges_at_end() {
    let p = program_of(vec![
        kw(Keyword::If),     // 0
        push_bool(true),     // 1
        unresolved_do(),     // 2
        unresolved_elif(),   // 3
        push_bool(false),    // 4
        unresolved_do(),     // 5
        unresolved_end(),    // 6
    ]);
    let out = process(&p, &empty_sources()).expect("pipeline should accept");
    match out.instructions[2].kind {
        InstructionKind::Keyword(Keyword::Do { false_target }) => {
            assert_eq!(false_target, Some(3));
        }
        ref other => panic!("expected do, found {:?}", other),
    }
    match out.instructions[3].kind {
        InstructionKind::Keyword(Keyword::Elif { self_ip, converge_target }) => {
            assert_eq!(self_ip, Some(3));
            assert_eq!(converge_target, Some(6));
        }
        ref other => panic!("expected elif, found {:?}", other),
    }
    match out.instructions[5].kind {
        InstructionKind::Keyword(Keyword::Do { false_target }) => {
            assert_eq!(false_target, Some(6));
        }
        ref other => panic!("expected do, found {:?}", other),
    }
    assert!(typecheck(&out).is_ok());
}
