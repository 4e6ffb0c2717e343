//! The macro and include expander: substitutes `here` location literals,
//! inlines included files from a caller-supplied table of parsed sources,
//! collects macro definitions and expands macro references to a fixpoint,
//! assigns final instruction pointers, and hands the array to the
//! control-flow resolver.
//!
//! Reading and parsing source files is the caller's business: the include
//! resolver works against a [`SourceSet`] of already-parsed files, so the
//! whole pass is a pure transformation with an exact contract.

use vstd::prelude::*;
use crate::error::{err_loc, loc_text, Error, Fault, PreprocessorError};
use crate::instruction::{
    clone_instructions, Instruction, InstructionKind, Intrinsic, Keyword, Loc, Macro, MacroSpan,
    Program, Value,
};
use crate::resolver::{fault_for, jumps, resolve_seq, ResolveErrV};

verus! {

/// One parsed source file an `include` can splice: its lookup path, the
/// directory its own includes resolve against, and its instructions.
#[derive(Debug)]
pub struct SourceFile {
    pub path: String,
    pub base_path: String,
    pub instructions: Vec<Instruction>,
}

/// The parsed files available to the include resolver.
#[derive(Debug)]
pub struct SourceSet {
    pub files: Vec<SourceFile>,
}

/// An include path resolved against a base directory.
pub open spec fn join_path(base: Seq<char>, rel: Seq<char>) -> Seq<char> {
    if base.len() == 0 {
        rel
    } else {
        base + "/"@ + rel
    }
}

/// The first file in the set with the given path, if any.
pub open spec fn file_lookup(files: Seq<SourceFile>, path: Seq<char>) -> Option<int>
    decreases files.len(),
{
    if files.len() == 0 {
        None
    } else if files[0].path@ == path {
        Some(0)
    } else {
        match file_lookup(files.drop_first(), path) {
            Some(k) => Some(k + 1),
            None => None,
        }
    }
}

/// How a `here` pass rewrites one instruction: a `here` intrinsic becomes
/// a pushed string literal rendering its own source location, everything
/// else is untouched.
pub open spec fn here_rel1(a: Instruction, b: Instruction) -> bool {
    if a.kind matches InstructionKind::Intrinsic(Intrinsic::Here) {
        &&& b.loc == a.loc
        &&& b.ip == a.ip
        &&& b.kind matches InstructionKind::Push(Value::Str(s)) && s@ == loc_text(a.loc)
    } else {
        b == a
    }
}

/// How a `here` pass rewrites a whole array.
pub open spec fn here_rel(a: Seq<Instruction>, b: Seq<Instruction>) -> bool {
    b.len() == a.len() && forall|j: int| 0 <= j < a.len() ==> here_rel1(a[j], #[trigger] b[j])
}

/// Replace every `here` intrinsic with a pushed `file:line:col` string
/// literal encoding its own source location.
pub fn here(insts: &mut Vec<Instruction>)
    ensures
        here_rel(old(insts)@, final(insts)@),
{
    let ghost s0 = insts@;
    let mut i: usize = 0;
    while i < insts.len()
        invariant
            insts@.len() == s0.len(),
            i <= s0.len(),
            forall|j: int| 0 <= j < i ==> here_rel1(s0[j], #[trigger] insts@[j]),
            forall|j: int| i <= j < s0.len() ==> insts@[j] == s0[j],
        decreases s0.len() - i,
    {
        let is_here = match &insts[i].kind {
            InstructionKind::Intrinsic(Intrinsic::Here) => true,
            _ => false,
        };
        if is_here {
            let loc = insts[i].loc.clone();
            let ip = insts[i].ip;
            let text = err_loc(&loc);
            let slot = vstd::std_specs::vec::vec_index_mut(insts, i);
            *slot = Instruction { kind: InstructionKind::Push(Value::Str(text)), loc, ip };
        }
        i = i + 1;
    }
}

/// The array with every instruction's pointer set to its index.
pub open spec fn assign_ips(s: Seq<Instruction>) -> Seq<Instruction> {
    Seq::new(
        s.len(),
        |j: int| Instruction { kind: s[j].kind, loc: s[j].loc, ip: j as usize },
    )
}

/// Assign every instruction its final, stable instruction pointer.
pub fn ips(insts: &mut Vec<Instruction>)
    ensures
        final(insts)@ == assign_ips(old(insts)@),
{
    let ghost s0 = insts@;
    let mut i: usize = 0;
    while i < insts.len()
        invariant
            insts@.len() == s0.len(),
            i <= s0.len(),
            forall|j: int| 0 <= j < i ==> insts@[j] == assign_ips(s0)[j],
            forall|j: int| i <= j < s0.len() ==> insts@[j] == s0[j],
        decreases s0.len() - i,
    {
        let kind = insts[i].kind.clone();
        let loc = insts[i].loc.clone();
        let slot = vstd::std_specs::vec::vec_index_mut(insts, i);
        *slot = Instruction { kind, loc, ip: i };
        i = i + 1;
    }
    proof {
        assert(insts@ =~= assign_ips(s0));
    }
}


/// The mathematical view of a collected macro.
pub struct MacroV {
    pub name: String,
    pub body: Seq<Instruction>,
    pub loc: MacroSpan,
}

impl View for Macro {
    type V = MacroV;

    open spec fn view(&self) -> MacroV {
        MacroV { name: self.name, body: self.body@, loc: self.loc }
    }
}

/// The views of a macro table.
pub open spec fn macrosv(ms: Seq<Macro>) -> Seq<MacroV> {
    ms.map_values(|m: Macro| m@)
}

/// The first table entry with the given name, if any.
pub open spec fn name_lookup_idx(ms: Seq<MacroV>, n: Seq<char>) -> Option<int>
    decreases ms.len(),
{
    if ms.len() == 0 {
        None
    } else if ms[0].name@ == n {
        Some(0)
    } else {
        match name_lookup_idx(ms.drop_first(), n) {
            Some(k) => Some(k + 1),
            None => None,
        }
    }
}

proof fn lemma_name_lookup(ms: Seq<MacroV>, n: Seq<char>)
    ensures
        match name_lookup_idx(ms, n) {
            Some(k) => 0 <= k < ms.len() && ms[k].name@ == n && forall|j: int|
                0 <= j < k ==> (#[trigger] ms[j]).name@ != n,
            None => forall|j: int| 0 <= j < ms.len() ==> (#[trigger] ms[j]).name@ != n,
        },
    decreases ms.len(),
{
    if ms.len() > 0 && ms[0].name@ != n {
        lemma_name_lookup(ms.drop_first(), n);
        match name_lookup_idx(ms.drop_first(), n) {
            Some(k) => {
                assert forall|j: int|
                    0 <= j < k + 1 implies (#[trigger] ms[j]).name@ != n by {
                    if j > 0 {
                        assert(ms.drop_first()[j - 1] == ms[j]);
                    }
                }
            },
            None => {
                assert forall|j: int|
                    0 <= j < ms.len() implies (#[trigger] ms[j]).name@ != n by {
                    if j > 0 {
                        assert(ms.drop_first()[j - 1] == ms[j]);
                    }
                }
            },
        }
    }
}

/// Record a macro: a later definition with the same name overwrites the
/// earlier one (last writer wins), otherwise the table grows.
pub open spec fn upsert(ms: Seq<MacroV>, m: MacroV) -> Seq<MacroV> {
    match name_lookup_idx(ms, m.name@) {
        Some(k) => ms.update(k, m),
        None => ms.push(m),
    }
}

/// Record a macro in the executable table, last writer wins.
fn upsert_macro(macros: &mut Vec<Macro>, m: Macro)
    ensures
        macrosv(final(macros)@) == upsert(macrosv(old(macros)@), m@),
{
    let ghost mv = m@;
    let mut k: usize = 0;
    while k < macros.len()
        invariant
            k <= macros@.len(),
            forall|j: int| 0 <= j < k ==> (#[trigger] macrosv(macros@)[j]).name@ != mv.name@,
            macros@ == old(macros)@,
            m@ == mv,
        decreases macros@.len() - k,
    {
        if macros[k].name == m.name {
            proof {
                lemma_name_lookup(macrosv(old(macros)@), mv.name@);
                assert(macrosv(macros@)[k as int].name@ == mv.name@);
                assert(name_lookup_idx(macrosv(old(macros)@), mv.name@) == Some(k as int));
            }
            let slot = vstd::std_specs::vec::vec_index_mut(macros, k);
            *slot = m;
            proof {
                assert(macrosv(macros@) =~= macrosv(old(macros)@).update(k as int, mv));
            }
            return ;
        }
        k = k + 1;
    }
    proof {
        lemma_name_lookup(macrosv(old(macros)@), mv.name@);
        assert(name_lookup_idx(macrosv(old(macros)@), mv.name@) is None);
    }
    macros.push(m);
    proof {
        assert(macrosv(macros@) =~= macrosv(old(macros)@).push(mv));
    }
}

/// A pending-block tag on the collection and expansion stacks, used only
/// to skip nested blocks' `end`s without misidentifying a macro's own
/// closing `end`.
#[derive(Debug, Clone, Copy, PartialEq, Eq, Structural)]
pub enum CTag {
    MacroTag,
    IfTag,
    ElifTag,
    ElseTag,
    WhileTag,
    DoTag,
}

/// The word naming a tag in diagnostics.
pub open spec fn ctag_word(t: CTag) -> Seq<char> {
    match t {
        CTag::MacroTag => "macro"@,
        CTag::IfTag => "if"@,
        CTag::ElifTag => "elif"@,
        CTag::ElseTag => "else"@,
        CTag::WhileTag => "while"@,
        CTag::DoTag => "do"@,
    }
}

fn ctag_word_exec(t: CTag) -> (r: String)
    ensures
        r@ == ctag_word(t),
{
    match t {
        CTag::MacroTag => String::from_str("macro"),
        CTag::IfTag => String::from_str("if"),
        CTag::ElifTag => String::from_str("elif"),
        CTag::ElseTag => String::from_str("else"),
        CTag::WhileTag => String::from_str("while"),
        CTag::DoTag => String::from_str("do"),
    }
}

/// Why a preprocessor pass rejected the array.
pub enum PPErrV {
    /// A control keyword found after the wrong pending block (or none).
    Unexpected { word: Seq<char>, popped: Option<CTag>, pos: usize, loc: Loc },
    /// A macro's `end` outside any macro definition.
    MacroEnd { pos: usize, loc: Loc },
    /// End of input inside a macro definition.
    UnclosedMacro { pos: usize, loc: Option<Loc> },
    /// Macro expansion did not reach a fixpoint within the pass cap.
    TooMany { loc: Option<Loc> },
}

/// The message of a preprocessor `UnexpectedKeyword` diagnostic.
pub open spec fn pp_unexpected_text(word: Seq<char>, popped: Option<CTag>) -> Seq<char> {
    word + " following "@ + match popped {
        Option::Some(t) => ctag_word(t),
        Option::None => "nothing"@,
    }
}

/// How an executable preprocessor fault corresponds to the model's error.
pub open spec fn pp_fault_for(f: Fault, e: PPErrV) -> bool {
    match e {
        PPErrV::Unexpected { word, popped, pos, loc } => {
            &&& f.ip == pos
            &&& f.loc == loc
            &&& f.secondary is None
            &&& f.error matches Error::PreprocessorError(PreprocessorError::UnexpectedKeyword(m))
                && m@ == pp_unexpected_text(word, popped)
        },
        PPErrV::MacroEnd { pos, loc } => {
            &&& f.ip == pos
            &&& f.loc == loc
            &&& f.secondary is None
            &&& f.error matches Error::PreprocessorError(PreprocessorError::UnexpectedMacroEnd)
        },
        PPErrV::UnclosedMacro { pos, loc } => {
            &&& f.ip == pos
            &&& (loc matches Some(l) ==> f.loc == l)
            &&& f.secondary is None
            &&& f.error matches Error::PreprocessorError(PreprocessorError::UnclosedBlock(m)) && m@
                == "macro"@
        },
        PPErrV::TooMany { loc } => {
            &&& f.ip == 0
            &&& (loc matches Some(l) ==> f.loc == l)
            &&& f.secondary is None
            &&& f.error matches Error::PreprocessorError(
                PreprocessorError::TooManyMacroExpansions,
            )
        },
    }
}

fn mk_pp_fault(err: PreprocessorError, ip: usize, loc: Loc) -> (f: Fault)
    ensures
        f.error == Error::PreprocessorError(err),
        f.ip == ip,
        f.loc == loc,
        f.secondary is None,
{
    Fault { error: Error::PreprocessorError(err), ip, loc, secondary: None }
}

fn mk_pp_unexpected(word: &str, popped: Option<CTag>, pos: usize, loc: Loc) -> (f: Fault)
    ensures
        f.ip == pos,
        f.loc == loc,
        f.secondary is None,
        f.error matches Error::PreprocessorError(PreprocessorError::UnexpectedKeyword(m)) && m@
            == pp_unexpected_text(word@, popped),
{
    let mut msg = word.to_owned();
    msg.append(" following ");
    match popped {
        Some(t) => {
            msg.append(ctag_word_exec(t).as_str());
        },
        None => {
            msg.append("nothing");
        },
    }
    Fault {
        error: Error::PreprocessorError(PreprocessorError::UnexpectedKeyword(msg)),
        ip: pos,
        loc,
        secondary: None,
    }
}

/// Macro collection from position `i`: a single linear scan over the
/// array, tracking a pending-block stack so a nested block's `end` is not
/// mistaken for the macro's own. On `macro <name> ... end` the verbatim
/// slice between name and `end` becomes that macro's body; the bracketing
/// instructions and the name are not part of it.
pub open spec fn collect_rec(
    s: Seq<Instruction>,
    i: nat,
    stack: Seq<CTag>,
    in_macro: bool,
    mname: Option<String>,
    mbody: Seq<Instruction>,
    mstart: usize,
    mloc: Option<Loc>,
    macros: Seq<MacroV>,
) -> Result<Seq<MacroV>, PPErrV>
    decreases s.len() - i,
{
    if i >= s.len() {
        if in_macro {
            Result::Err(PPErrV::UnclosedMacro { pos: mstart, loc: mloc })
        } else {
            Result::Ok(macros)
        }
    } else {
        let ip = i as usize;
        let inst = s[i as int];
        let body1 = if in_macro {
            mbody.push(inst)
        } else {
            mbody
        };
        match inst.kind {
            InstructionKind::Keyword(Keyword::Macro) => collect_rec(
                s,
                i + 1,
                stack.push(CTag::MacroTag),
                true,
                mname,
                mbody,
                if in_macro {
                    mstart
                } else {
                    ip
                },
                if in_macro {
                    mloc
                } else {
                    Some(inst.loc)
                },
                macros,
            ),
            InstructionKind::Name(n) => {
                if in_macro && mname is None {
                    collect_rec(s, i + 1, stack, in_macro, Some(n), mbody, mstart, mloc, macros)
                } else {
                    collect_rec(s, i + 1, stack, in_macro, mname, body1, mstart, mloc, macros)
                }
            },
            InstructionKind::Keyword(Keyword::If) => collect_rec(
                s,
                i + 1,
                stack.push(CTag::IfTag),
                in_macro,
                mname,
                body1,
                mstart,
                mloc,
                macros,
            ),
            InstructionKind::Keyword(Keyword::While { .. }) => collect_rec(
                s,
                i + 1,
                stack.push(CTag::WhileTag),
                in_macro,
                mname,
                body1,
                mstart,
                mloc,
                macros,
            ),
            InstructionKind::Keyword(Keyword::Do { .. }) => {
                if stack.len() == 0 {
                    Result::Err(
                        PPErrV::Unexpected { word: "do"@, popped: None, pos: ip, loc: inst.loc },
                    )
                } else {
                    match stack.last() {
                        CTag::IfTag | CTag::ElifTag | CTag::WhileTag => collect_rec(
                            s,
                            i + 1,
                            stack.drop_last().push(CTag::DoTag),
                            in_macro,
                            mname,
                            body1,
                            mstart,
                            mloc,
                            macros,
                        ),
                        t => Result::Err(
                            PPErrV::Unexpected {
                                word: "do"@,
                                popped: Some(t),
                                pos: ip,
                                loc: inst.loc,
                            },
                        ),
                    }
                }
            },
            InstructionKind::Keyword(Keyword::Elif { .. }) => {
                if stack.len() != 0 && stack.last() == CTag::DoTag {
                    collect_rec(
                        s,
                        i + 1,
                        stack.drop_last().push(CTag::ElifTag),
                        in_macro,
                        mname,
                        body1,
                        mstart,
                        mloc,
                        macros,
                    )
                } else {
                    Result::Err(
                        PPErrV::Unexpected {
                            word: "elif"@,
                            popped: if stack.len() == 0 {
                                None
                            } else {
                                Some(stack.last())
                            },
                            pos: ip,
                            loc: inst.loc,
                        },
                    )
                }
            },
            InstructionKind::Keyword(Keyword::Else { .. }) => {
                if stack.len() != 0 && stack.last() == CTag::DoTag {
                    collect_rec(
                        s,
                        i + 1,
                        stack.drop_last().push(CTag::ElseTag),
                        in_macro,
                        mname,
                        body1,
                        mstart,
                        mloc,
                        macros,
                    )
                } else {
                    Result::Err(
                        PPErrV::Unexpected {
                            word: "else"@,
                            popped: if stack.len() == 0 {
                                None
                            } else {
                                Some(stack.last())
                            },
                            pos: ip,
                            loc: inst.loc,
                        },
                    )
                }
            },
            InstructionKind::Keyword(Keyword::End { .. }) => {
                if stack.len() == 0 {
                    Result::Err(
                        PPErrV::Unexpected { word: "end"@, popped: None, pos: ip, loc: inst.loc },
                    )
                } else if stack.last() == CTag::MacroTag {
                    if in_macro {
                        match mname {
                            Some(name) => collect_rec(
                                s,
                                i + 1,
                                stack.drop_last(),
                                false,
                                None,
                                Seq::empty(),
                                mstart,
                                mloc,
                                upsert(
                                    macros,
                                    MacroV {
                                        name,
                                        body: mbody,
                                        loc: MacroSpan { start: mstart, end: ip },
                                    },
                                ),
                            ),
                            None => Result::Err(
                                PPErrV::Unexpected {
                                    word: "end"@,
                                    popped: Some(CTag::MacroTag),
                                    pos: ip,
                                    loc: inst.loc,
                                },
                            ),
                        }
                    } else {
                        Result::Err(PPErrV::MacroEnd { pos: ip, loc: inst.loc })
                    }
                } else {
                    collect_rec(
                        s,
                        i + 1,
                        stack.drop_last(),
                        in_macro,
                        mname,
                        body1,
                        mstart,
                        mloc,
                        macros,
                    )
                }
            },
            _ => collect_rec(s, i + 1, stack, in_macro, mname, body1, mstart, mloc, macros),
        }
    }
}

/// Collect the macro definitions of the array into the table; a later
/// definition with the same name silently overwrites an earlier one.
pub fn collect_macros(insts: &Vec<Instruction>, macros: &mut Vec<Macro>) -> (r: Result<(), Fault>)
    ensures
        match r {
            Result::Ok(()) => collect_rec(
                insts@,
                0,
                Seq::empty(),
                false,
                None,
                Seq::empty(),
                0,
                None,
                macrosv(old(macros)@),
            ) matches Result::Ok(ms) && macrosv(final(macros)@) == ms,
            Result::Err(f) => collect_rec(
                insts@,
                0,
                Seq::empty(),
                false,
                None,
                Seq::empty(),
                0,
                None,
                macrosv(old(macros)@),
            ) matches Result::Err(e) && pp_fault_for(f, e),
        },
{
    let ghost s0 = insts@;
    let ghost m0 = macrosv(macros@);
    let mut stack: Vec<CTag> = Vec::new();
    let mut in_macro = false;
    let mut mname: Option<String> = None;
    let mut mbody: Vec<Instruction> = Vec::new();
    let mut mstart: usize = 0;
    let mut mloc: Option<Loc> = None;
    let mut i: usize = 0;
    proof {
        assert(stack@ =~= Seq::<CTag>::empty());
        assert(mbody@ =~= Seq::<Instruction>::empty());
    }
    while i < insts.len()
        invariant
            insts@ == s0,
            i <= s0.len(),
            in_macro ==> mloc is Some,
            m0 == macrosv(old(macros)@),
            collect_rec(s0, 0, Seq::empty(), false, None, Seq::empty(), 0, None, m0) == collect_rec(
                s0,
                i as nat,
                stack@,
                in_macro,
                mname,
                mbody@,
                mstart,
                mloc,
                macrosv(macros@),
            ),
        decreases s0.len() - i,
    {
        let ghost pre_stack = stack@;
        let ghost pre_body = mbody@;
        let ghost pre_macros = macrosv(macros@);
        let ghost pre_name = mname;
        let loc = insts[i].loc.clone();
        let tag_top: Option<CTag> = if stack.len() > 0 {
            Some(stack[stack.len() - 1])
        } else {
            None
        };
        match &insts[i].kind {
            InstructionKind::Keyword(Keyword::Macro) => {
                stack.push(CTag::MacroTag);
                if !in_macro {
                    mstart = i;
                    mloc = Some(loc);
                }
                in_macro = true;
                proof {
                    assert(stack@ =~= pre_stack.push(CTag::MacroTag));
                }
            },
            InstructionKind::Name(n) => {
                if in_macro && mname.is_none() {
                    mname = Some(n.clone());
                } else if in_macro {
                    mbody.push(insts[i].clone());
                }
            },
            InstructionKind::Keyword(Keyword::If) => {
                stack.push(CTag::IfTag);
                if in_macro {
                    mbody.push(insts[i].clone());
                }
                proof {
                    assert(stack@ =~= pre_stack.push(CTag::IfTag));
                }
            },
            InstructionKind::Keyword(Keyword::While { .. }) => {
                stack.push(CTag::WhileTag);
                if in_macro {
                    mbody.push(insts[i].clone());
                }
                proof {
                    assert(stack@ =~= pre_stack.push(CTag::WhileTag));
                }
            },
            InstructionKind::Keyword(Keyword::Do { .. }) => {
                match tag_top {
                    Some(CTag::IfTag) | Some(CTag::ElifTag) | Some(CTag::WhileTag) => {
                        stack.pop();
                        stack.push(CTag::DoTag);
                        if in_macro {
                            mbody.push(insts[i].clone());
                        }
                        proof {
                            assert(stack@ =~= pre_stack.drop_last().push(CTag::DoTag));
                        }
                    },
                    other => {
                        proof {
                            if pre_stack.len() > 0 {
                                assert(other == Some(pre_stack.last()));
                            }
                            let e = PPErrV::Unexpected {
                                word: "do"@,
                                popped: other,
                                pos: i,
                                loc: s0[i as int].loc,
                            };
                            assert(collect_rec(
                                s0,
                                i as nat,
                                pre_stack,
                                in_macro,
                                mname,
                                pre_body,
                                mstart,
                                mloc,
                                pre_macros,
                            ) == Result::<Seq<MacroV>, PPErrV>::Err(e));
                        }
                        return Result::Err(mk_pp_unexpected("do", other, i, loc));
                    },
                }
            },
            InstructionKind::Keyword(Keyword::Elif { .. }) => {
                if tag_top == Some(CTag::DoTag) {
                    stack.pop();
                    stack.push(CTag::ElifTag);
                    if in_macro {
                        mbody.push(insts[i].clone());
                    }
                    proof {
                        assert(stack@ =~= pre_stack.drop_last().push(CTag::ElifTag));
                    }
                } else {
                    proof {
                        if pre_stack.len() > 0 {
                            assert(tag_top == Some(pre_stack.last()));
                        }
                        let e = PPErrV::Unexpected {
                            word: "elif"@,
                            popped: tag_top,
                            pos: i,
                            loc: s0[i as int].loc,
                        };
                        assert(collect_rec(
                            s0,
                            i as nat,
                            pre_stack,
                            in_macro,
                            mname,
                            pre_body,
                            mstart,
                            mloc,
                            pre_macros,
                        ) == Result::<Seq<MacroV>, PPErrV>::Err(e));
                    }
                    return Result::Err(mk_pp_unexpected("elif", tag_top, i, loc));
                }
            },
            InstructionKind::Keyword(Keyword::Else { .. }) => {
                if tag_top == Some(CTag::DoTag) {
                    stack.pop();
                    stack.push(CTag::ElseTag);
                    if in_macro {
                        mbody.push(insts[i].clone());
                    }
                    proof {
                        assert(stack@ =~= pre_stack.drop_last().push(CTag::ElseTag));
                    }
                } else {
                    proof {
                        if pre_stack.len() > 0 {
                            assert(tag_top == Some(pre_stack.last()));
                        }
                        let e = PPErrV::Unexpected {
                            word: "else"@,
                            popped: tag_top,
                            pos: i,
                            loc: s0[i as int].loc,
                        };
                        assert(collect_rec(
                            s0,
                            i as nat,
                            pre_stack,
                            in_macro,
                            mname,
                            pre_body,
                            mstart,
                            mloc,
                            pre_macros,
                        ) == Result::<Seq<MacroV>, PPErrV>::Err(e));
                    }
                    return Result::Err(mk_pp_unexpected("else", tag_top, i, loc));
                }
            },
            InstructionKind::Keyword(Keyword::End { .. }) => {
                match tag_top {
                    None => {
                        proof {
                            let e = PPErrV::Unexpected {
                                word: "end"@,
                                popped: None,
                                pos: i,
                                loc: s0[i as int].loc,
                            };
                            assert(collect_rec(
                                s0,
                                i as nat,
                                pre_stack,
                                in_macro,
                                mname,
                                pre_body,
                                mstart,
                                mloc,
                                pre_macros,
                            ) == Result::<Seq<MacroV>, PPErrV>::Err(e));
                        }
                        return Result::Err(mk_pp_unexpected("end", None, i, loc));
                    },
                    Some(CTag::MacroTag) => {
                        if in_macro {
                            let name_taken = mname;
                            mname = None;
                            match name_taken {
                                Some(name) => {
                                    stack.pop();
                                    let body_taken = mbody;
                                    mbody = Vec::new();
                                    let m = Macro {
                                        name,
                                        body: body_taken,
                                        loc: MacroSpan { start: mstart, end: i },
                                    };
                                    upsert_macro(macros, m);
                                    in_macro = false;
                                    proof {
                                        assert(stack@ =~= pre_stack.drop_last());
                                        assert(mbody@ =~= Seq::<Instruction>::empty());
                                    }
                                },
                                None => {
                                    proof {
                                        assert(tag_top == Some(pre_stack.last()));
                                        let e = PPErrV::Unexpected {
                                            word: "end"@,
                                            popped: Some(CTag::MacroTag),
                                            pos: i,
                                            loc: s0[i as int].loc,
                                        };
                                        assert(collect_rec(
                                            s0,
                                            i as nat,
                                            pre_stack,
                                            in_macro,
                                            pre_name,
                                            pre_body,
                                            mstart,
                                            mloc,
                                            pre_macros,
                                        ) == Result::<Seq<MacroV>, PPErrV>::Err(e));
                                    }
                                    return Result::Err(
                                        mk_pp_unexpected("end", Some(CTag::MacroTag), i, loc),
                                    );
                                },
                            }
                        } else {
                            proof {
                                assert(tag_top == Some(pre_stack.last()));
                                let e = PPErrV::MacroEnd { pos: i, loc: s0[i as int].loc };
                                assert(collect_rec(
                                    s0,
                                    i as nat,
                                    pre_stack,
                                    in_macro,
                                    mname,
                                    pre_body,
                                    mstart,
                                    mloc,
                                    pre_macros,
                                ) == Result::<Seq<MacroV>, PPErrV>::Err(e));
                            }
                            return Result::Err(
                                mk_pp_fault(PreprocessorError::UnexpectedMacroEnd, i, loc),
                            );
                        }
                    },
                    Some(_) => {
                        stack.pop();
                        if in_macro {
                            mbody.push(insts[i].clone());
                        }
                        proof {
                            assert(stack@ =~= pre_stack.drop_last());
                        }
                    },
                }
            },
            _ => {
                if in_macro {
                    mbody.push(insts[i].clone());
                }
            },
        }
        i = i + 1;
    }
    if in_macro {
        match mloc {
            Some(l) => {
                return Result::Err(
                    mk_pp_fault(
                        PreprocessorError::UnclosedBlock(String::from_str("macro")),
                        mstart,
                        l,
                    ),
                );
            },
            None => {
                // in_macro is only set together with a recorded location
                proof {
                    assert(false);
                }
                vstd::pervasive::unreached()
            },
        }
    }
    Result::Ok(())
}


/// The macro whose name matches, if any.
pub open spec fn mac_lookup(ms: Seq<MacroV>, n: Seq<char>) -> Option<MacroV> {
    match name_lookup_idx(ms, n) {
        Some(k) => Some(ms[k]),
        None => None,
    }
}

/// Find a macro by name in the executable table.
fn mac_lookup_exec<'a>(macros: &'a Vec<Macro>, n: &String) -> (r: Option<&'a Macro>)
    ensures
        match r {
            Some(m) => mac_lookup(macrosv(macros@), n@) == Some(m@),
            None => mac_lookup(macrosv(macros@), n@) is None,
        },
{
    proof {
        lemma_name_lookup(macrosv(macros@), n@);
    }
    let mut k: usize = 0;
    while k < macros.len()
        invariant
            k <= macros@.len(),
            forall|j: int| 0 <= j < k ==> (#[trigger] macrosv(macros@)[j]).name@ != n@,
        decreases macros@.len() - k,
    {
        if macros[k].name == *n {
            proof {
                lemma_name_lookup(macrosv(macros@), n@);
                assert(macrosv(macros@)[k as int].name@ == n@);
                assert(name_lookup_idx(macrosv(macros@), n@) == Some(k as int));
            }
            return Some(&macros[k]);
        }
        k = k + 1;
    }
    proof {
        lemma_name_lookup(macrosv(macros@), n@);
    }
    None
}

/// One macro-expansion pass from position `i`: strip macro definitions,
/// and replace every free reference to a recorded macro with a fresh copy
/// of its body. Returns the new array and whether any substitution was
/// made.
pub open spec fn expand_rec(
    s: Seq<Instruction>,
    i: nat,
    stack: Seq<CTag>,
    in_macro: bool,
    mstart: usize,
    out: Seq<Instruction>,
    changed: bool,
    macros: Seq<MacroV>,
) -> Result<(Seq<Instruction>, bool), PPErrV>
    decreases s.len() - i,
{
    if i >= s.len() {
        if in_macro {
            Result::Err(PPErrV::UnclosedMacro { pos: mstart, loc: None })
        } else {
            Result::Ok((out, changed))
        }
    } else {
        let ip = i as usize;
        let inst = s[i as int];
        let out1 = if in_macro {
            out
        } else {
            out.push(inst)
        };
        match inst.kind {
            InstructionKind::Keyword(Keyword::Macro) => expand_rec(
                s,
                i + 1,
                stack.push(CTag::MacroTag),
                true,
                if in_macro {
                    mstart
                } else {
                    ip
                },
                out,
                changed,
                macros,
            ),
            InstructionKind::Name(n) => {
                if in_macro {
                    expand_rec(s, i + 1, stack, in_macro, mstart, out, changed, macros)
                } else {
                    match mac_lookup(macros, n@) {
                        Some(m) => expand_rec(
                            s,
                            i + 1,
                            stack,
                            in_macro,
                            mstart,
                            out + m.body,
                            true,
                            macros,
                        ),
                        None => expand_rec(s, i + 1, stack, in_macro, mstart, out1, changed, macros),
                    }
                }
            },
            InstructionKind::Keyword(Keyword::If) => expand_rec(
                s,
                i + 1,
                stack.push(CTag::IfTag),
                in_macro,
                mstart,
                out1,
                changed,
                macros,
            ),
            InstructionKind::Keyword(Keyword::While { .. }) => expand_rec(
                s,
                i + 1,
                stack.push(CTag::WhileTag),
                in_macro,
                mstart,
                out1,
                changed,
                macros,
            ),
            InstructionKind::Keyword(Keyword::Do { .. }) => {
                if stack.len() != 0 && (stack.last() == CTag::IfTag || stack.last() == CTag::ElifTag
                    || stack.last() == CTag::WhileTag) {
                    expand_rec(
                        s,
                        i + 1,
                        stack.drop_last().push(CTag::DoTag),
                        in_macro,
                        mstart,
                        out1,
                        changed,
                        macros,
                    )
                } else {
                    Result::Err(
                        PPErrV::Unexpected {
                            word: "do"@,
                            popped: if stack.len() == 0 {
                                None
                            } else {
                                Some(stack.last())
                            },
                            pos: ip,
                            loc: inst.loc,
                        },
                    )
                }
            },
            InstructionKind::Keyword(Keyword::Elif { .. }) => {
                if stack.len() != 0 && stack.last() == CTag::DoTag {
                    expand_rec(
                        s,
                        i + 1,
                        stack.drop_last().push(CTag::ElifTag),
                        in_macro,
                        mstart,
                        out1,
                        changed,
                        macros,
                    )
                } else {
                    Result::Err(
                        PPErrV::Unexpected {
                            word: "elif"@,
                            popped: if stack.len() == 0 {
                                None
                            } else {
                                Some(stack.last())
                            },
                            pos: ip,
                            loc: inst.loc,
                        },
                    )
                }
            },
            InstructionKind::Keyword(Keyword::Else { .. }) => {
                if stack.len() != 0 && stack.last() == CTag::DoTag {
                    expand_rec(
                        s,
                        i + 1,
                        stack.drop_last().push(CTag::ElseTag),
                        in_macro,
                        mstart,
                        out1,
                        changed,
                        macros,
                    )
                } else {
                    Result::Err(
                        PPErrV::Unexpected {
                            word: "else"@,
                            popped: if stack.len() == 0 {
                                None
                            } else {
                                Some(stack.last())
                            },
                            pos: ip,
                            loc: inst.loc,
                        },
                    )
                }
            },
            InstructionKind::Keyword(Keyword::End { .. }) => {
                if stack.len() == 0 {
                    Result::Err(
                        PPErrV::Unexpected { word: "end"@, popped: None, pos: ip, loc: inst.loc },
                    )
                } else if stack.last() == CTag::MacroTag {
                    if in_macro {
                        expand_rec(
                            s,
                            i + 1,
                            stack.drop_last(),
                            false,
                            mstart,
                            out,
                            changed,
                            macros,
                        )
                    } else {
                        Result::Err(PPErrV::MacroEnd { pos: ip, loc: inst.loc })
                    }
                } else {
                    expand_rec(
                        s,
                        i + 1,
                        stack.drop_last(),
                        in_macro,
                        mstart,
                        out1,
                        changed,
                        macros,
                    )
                }
            },
            _ => expand_rec(s, i + 1, stack, in_macro, mstart, out1, changed, macros),
        }
    }
}

/// One macro-expansion pass over the whole array: strip macro definitions
/// and replace each free reference to a recorded macro with a fresh copy
/// of its body. Returns the new array and whether anything was
/// substituted.
pub fn expand_macros(insts: &Vec<Instruction>, macros: &Vec<Macro>) -> (r: Result<
    (Vec<Instruction>, bool),
    Fault,
>)
    ensures
        match r {
            Result::Ok((out, changed)) => expand_rec(
                insts@,
                0,
                Seq::empty(),
                false,
                0,
                Seq::empty(),
                false,
                macrosv(macros@),
            ) matches Result::Ok(oc) && out@ == oc.0 && changed == oc.1,
            Result::Err(f) => expand_rec(
                insts@,
                0,
                Seq::empty(),
                false,
                0,
                Seq::empty(),
                false,
                macrosv(macros@),
            ) matches Result::Err(e) && pp_fault_for(f, e),
        },
{
    let ghost s0 = insts@;
    let ghost m0 = macrosv(macros@);
    let mut stack: Vec<CTag> = Vec::new();
    let mut in_macro = false;
    let mut mstart: usize = 0;
    let mut out: Vec<Instruction> = Vec::new();
    let mut changed = false;
    let mut i: usize = 0;
    proof {
        assert(stack@ =~= Seq::<CTag>::empty());
        assert(out@ =~= Seq::<Instruction>::empty());
    }
    while i < insts.len()
        invariant
            insts@ == s0,
            m0 == macrosv(macros@),
            i <= s0.len(),
            expand_rec(s0, 0, Seq::empty(), false, 0, Seq::empty(), false, m0) == expand_rec(
                s0,
                i as nat,
                stack@,
                in_macro,
                mstart,
                out@,
                changed,
                m0,
            ),
        decreases s0.len() - i,
    {
        let ghost pre_stack = stack@;
        let ghost pre_out = out@;
        let loc = insts[i].loc.clone();
        let tag_top: Option<CTag> = if stack.len() > 0 {
            Some(stack[stack.len() - 1])
        } else {
            None
        };
        match &insts[i].kind {
            InstructionKind::Keyword(Keyword::Macro) => {
                stack.push(CTag::MacroTag);
                if !in_macro {
                    mstart = i;
                }
                in_macro = true;
                proof {
                    assert(stack@ =~= pre_stack.push(CTag::MacroTag));
                }
            },
            InstructionKind::Name(n) => {
                if !in_macro {
                    match mac_lookup_exec(macros, n) {
                        Some(m) => {
                            let mut body = clone_instructions(&m.body);
                            out.append(&mut body);
                            changed = true;
                            proof {
                                assert(out@ =~= pre_out + mac_lookup(m0, s0[i as int].kind->Name_0@)->0.body);
                            }
                        },
                        None => {
                            out.push(insts[i].clone());
                        },
                    }
                }
            },
            InstructionKind::Keyword(Keyword::If) => {
                stack.push(CTag::IfTag);
                if !in_macro {
                    out.push(insts[i].clone());
                }
                proof {
                    assert(stack@ =~= pre_stack.push(CTag::IfTag));
                }
            },
            InstructionKind::Keyword(Keyword::While { .. }) => {
                stack.push(CTag::WhileTag);
                if !in_macro {
                    out.push(insts[i].clone());
                }
                proof {
                    assert(stack@ =~= pre_stack.push(CTag::WhileTag));
                }
            },
            InstructionKind::Keyword(Keyword::Do { .. }) => {
                match tag_top {
                    Some(CTag::IfTag) | Some(CTag::ElifTag) | Some(CTag::WhileTag) => {
                        stack.pop();
                        stack.push(CTag::DoTag);
                        if !in_macro {
                            out.push(insts[i].clone());
                        }
                        proof {
                            assert(stack@ =~= pre_stack.drop_last().push(CTag::DoTag));
                        }
                    },
                    other => {
                        proof {
                            if pre_stack.len() > 0 {
                                assert(other == Some(pre_stack.last()));
                            }
                            let e = PPErrV::Unexpected {
                                word: "do"@,
                                popped: other,
                                pos: i,
                                loc: s0[i as int].loc,
                            };
                            assert(expand_rec(
                                s0,
                                i as nat,
                                pre_stack,
                                in_macro,
                                mstart,
                                pre_out,
                                changed,
                                m0,
                            ) == Result::<(Seq<Instruction>, bool), PPErrV>::Err(e));
                        }
                        return Result::Err(mk_pp_unexpected("do", other, i, loc));
                    },
                }
            },
            InstructionKind::Keyword(Keyword::Elif { .. }) => {
                if tag_top == Some(CTag::DoTag) {
                    stack.pop();
                    stack.push(CTag::ElifTag);
                    if !in_macro {
                        out.push(insts[i].clone());
                    }
                    proof {
                        assert(stack@ =~= pre_stack.drop_last().push(CTag::ElifTag));
                    }
                } else {
                    proof {
                        if pre_stack.len() > 0 {
                            assert(tag_top == Some(pre_stack.last()));
                        }
                        let e = PPErrV::Unexpected {
                            word: "elif"@,
                            popped: tag_top,
                            pos: i,
                            loc: s0[i as int].loc,
                        };
                        assert(expand_rec(
                            s0,
                            i as nat,
                            pre_stack,
                            in_macro,
                            mstart,
                            pre_out,
                            changed,
                            m0,
                        ) == Result::<(Seq<Instruction>, bool), PPErrV>::Err(e));
                    }
                    return Result::Err(mk_pp_unexpected("elif", tag_top, i, loc));
                }
            },
            InstructionKind::Keyword(Keyword::Else { .. }) => {
                if tag_top == Some(CTag::DoTag) {
                    stack.pop();
                    stack.push(CTag::ElseTag);
                    if !in_macro {
                        out.push(insts[i].clone());
                    }
                    proof {
                        assert(stack@ =~= pre_stack.drop_last().push(CTag::ElseTag));
                    }
                } else {
                    proof {
                        if pre_stack.len() > 0 {
                            assert(tag_top == Some(pre_stack.last()));
                        }
                        let e = PPErrV::Unexpected {
                            word: "else"@,
                            popped: tag_top,
                            pos: i,
                            loc: s0[i as int].loc,
                        };
                        assert(expand_rec(
                            s0,
                            i as nat,
                            pre_stack,
                            in_macro,
                            mstart,
                            pre_out,
                            changed,
                            m0,
                        ) == Result::<(Seq<Instruction>, bool), PPErrV>::Err(e));
                    }
                    return Result::Err(mk_pp_unexpected("else", tag_top, i, loc));
                }
            },
            InstructionKind::Keyword(Keyword::End { .. }) => {
                match tag_top {
                    None => {
                        proof {
                            let e = PPErrV::Unexpected {
                                word: "end"@,
                                popped: None,
                                pos: i,
                                loc: s0[i as int].loc,
                            };
                            assert(expand_rec(
                                s0,
                                i as nat,
                                pre_stack,
                                in_macro,
                                mstart,
                                pre_out,
                                changed,
                                m0,
                            ) == Result::<(Seq<Instruction>, bool), PPErrV>::Err(e));
                        }
                        return Result::Err(mk_pp_unexpected("end", None, i, loc));
                    },
                    Some(CTag::MacroTag) => {
                        if in_macro {
                            stack.pop();
                            in_macro = false;
                            proof {
                                assert(stack@ =~= pre_stack.drop_last());
                            }
                        } else {
                            proof {
                                assert(tag_top == Some(pre_stack.last()));
                                let e = PPErrV::MacroEnd { pos: i, loc: s0[i as int].loc };
                                assert(expand_rec(
                                    s0,
                                    i as nat,
                                    pre_stack,
                                    in_macro,
                                    mstart,
                                    pre_out,
                                    changed,
                                    m0,
                                ) == Result::<(Seq<Instruction>, bool), PPErrV>::Err(e));
                            }
                            return Result::Err(
                                mk_pp_fault(PreprocessorError::UnexpectedMacroEnd, i, loc),
                            );
                        }
                    },
                    Some(_) => {
                        stack.pop();
                        if !in_macro {
                            out.push(insts[i].clone());
                        }
                        proof {
                            assert(stack@ =~= pre_stack.drop_last());
                        }
                    },
                }
            },
            _ => {
                if !in_macro {
                    out.push(insts[i].clone());
                }
            },
        }
        i = i + 1;
    }
    if in_macro {
        let loc = if insts.len() > 0 {
            insts[insts.len() - 1].loc.clone()
        } else {
            Loc { file: String::new(), line: 0, col: 0 }
        };
        return Result::Err(
            mk_pp_fault(PreprocessorError::UnclosedBlock(String::from_str("macro")), mstart, loc),
        );
    }
    Result::Ok((out, changed))
}


/// The include-recursion depth cap: deeper nesting (an include cycle) is
/// reported rather than followed forever.
pub const INCLUDE_DEPTH_CAP: usize = 100;

/// Why include resolution stopped.
pub enum IncErrV {
    /// The `include` was not followed by a string-literal path.
    Invalid { loc: Loc, kind: InstructionKind },
    /// No source in the set matches the resolved path.
    NotFound { loc: Loc, path: String },
    /// Include nesting exceeded the recursion depth cap.
    TooDeep { loc: Loc },
}

/// How an executable include fault corresponds to the model's error.
/// Include faults precede instruction-pointer assignment, so they are
/// identified by source location alone.
pub open spec fn inc_fault_for(f: Fault, e: IncErrV) -> bool {
    match e {
        IncErrV::Invalid { loc, kind } => {
            &&& f.ip == 0
            &&& f.loc == loc
            &&& f.secondary is None
            &&& f.error matches Error::PreprocessorError(PreprocessorError::InvalidInclude(m)) && m@
                == crate::instruction::kind_text(kind)
        },
        IncErrV::NotFound { loc, path } => {
            &&& f.ip == 0
            &&& f.loc == loc
            &&& f.secondary is None
            &&& f.error matches Error::PreprocessorError(PreprocessorError::IncludeNotFound(m))
                && m@ == path@
        },
        IncErrV::TooDeep { loc } => {
            &&& f.ip == 0
            &&& f.loc == loc
            &&& f.secondary is None
            &&& f.error matches Error::PreprocessorError(PreprocessorError::RecursiveInclude)
        },
    }
}

/// Include resolution: for each `include "<path>"` pair, resolve the path
/// against the base directory, splice the named file's instructions (with
/// its own includes resolved first, against its own base directory) in
/// place of the pair.
pub open spec fn inc_rec(
    s: Seq<Instruction>,
    files: Seq<SourceFile>,
    base: Seq<char>,
    depth: nat,
) -> Result<Seq<Instruction>, IncErrV>
    decreases INCLUDE_DEPTH_CAP - depth, s.len(),
        when depth <= INCLUDE_DEPTH_CAP
{
    if s.len() == 0 {
        Result::Ok(Seq::empty())
    } else if s[0].kind matches InstructionKind::Keyword(Keyword::Include) {
        if s.len() < 2 {
            Result::Err(IncErrV::Invalid { loc: s[0].loc, kind: s[0].kind })
        } else {
            match s[1].kind {
                InstructionKind::Push(Value::Str(p)) => {
                    match file_lookup(files, join_path(base, p@)) {
                        None => Result::Err(IncErrV::NotFound { loc: s[1].loc, path: p }),
                        Some(k) => {
                            if depth + 1 > INCLUDE_DEPTH_CAP {
                                Result::Err(IncErrV::TooDeep { loc: s[0].loc })
                            } else {
                                match inc_rec(
                                    files[k].instructions@,
                                    files,
                                    files[k].base_path@,
                                    depth + 1,
                                ) {
                                    Result::Err(e) => Result::Err(e),
                                    Result::Ok(sub) => match inc_rec(s.skip(2), files, base, depth) {
                                        Result::Err(e) => Result::Err(e),
                                        Result::Ok(rest) => Result::Ok(sub + rest),
                                    },
                                }
                            }
                        },
                    }
                },
                _ => Result::Err(IncErrV::Invalid { loc: s[1].loc, kind: s[1].kind }),
            }
        }
    } else {
        match inc_rec(s.skip(1), files, base, depth) {
            Result::Err(e) => Result::Err(e),
            Result::Ok(rest) => Result::Ok(seq![s[0]] + rest),
        }
    }
}

proof fn lemma_file_lookup(files: Seq<SourceFile>, path: Seq<char>)
    ensures
        match file_lookup(files, path) {
            Some(k) => 0 <= k < files.len() && files[k].path@ == path && forall|j: int|
                0 <= j < k ==> (#[trigger] files[j]).path@ != path,
            None => forall|j: int| 0 <= j < files.len() ==> (#[trigger] files[j]).path@ != path,
        },
    decreases files.len(),
{
    if files.len() > 0 && files[0].path@ != path {
        lemma_file_lookup(files.drop_first(), path);
        match file_lookup(files.drop_first(), path) {
            Some(k) => {
                assert forall|j: int|
                    0 <= j < k + 1 implies (#[trigger] files[j]).path@ != path by {
                    if j > 0 {
                        assert(files.drop_first()[j - 1] == files[j]);
                    }
                }
            },
            None => {
                assert forall|j: int|
                    0 <= j < files.len() implies (#[trigger] files[j]).path@ != path by {
                    if j > 0 {
                        assert(files.drop_first()[j - 1] == files[j]);
                    }
                }
            },
        }
    }
}

fn find_file<'a>(files: &'a SourceSet, path: &String) -> (r: Option<&'a SourceFile>)
    ensures
        match r {
            Some(f) => file_lookup(files.files@, path@) matches Some(k) && *f == files.files@[k],
            None => file_lookup(files.files@, path@) is None,
        },
{
    let mut k: usize = 0;
    while k < files.files.len()
        invariant
            k <= files.files@.len(),
            forall|j: int| 0 <= j < k ==> (#[trigger] files.files@[j]).path@ != path@,
        decreases files.files@.len() - k,
    {
        if files.files[k].path == *path {
            proof {
                lemma_file_lookup(files.files@, path@);
                assert(file_lookup(files.files@, path@) == Some(k as int));
            }
            return Some(&files.files[k]);
        }
        k = k + 1;
    }
    proof {
        lemma_file_lookup(files.files@, path@);
    }
    None
}

fn join_path_exec(base: &str, rel: &String) -> (r: String)
    ensures
        r@ == join_path(base@, rel@),
{
    if base.unicode_len() == 0 {
        rel.clone()
    } else {
        let mut r = base.to_owned();
        r.append("/");
        r.append(rel.as_str());
        proof {
            assert(r@ =~= join_path(base@, rel@));
        }
        r
    }
}

/// Resolve every `include` in the array against the source set, splicing
/// each included file (itself include-resolved first) in place of the
/// `include`/path pair.
pub fn includes(
    insts: &Vec<Instruction>,
    files: &SourceSet,
    base: &str,
    depth: usize,
) -> (r: Result<Vec<Instruction>, Fault>)
    requires
        depth <= INCLUDE_DEPTH_CAP,
    ensures
        match r {
            Result::Ok(out) => inc_rec(insts@, files.files@, base@, depth as nat) matches Result::Ok(
                o,
            ) && out@ == o,
            Result::Err(f) => inc_rec(insts@, files.files@, base@, depth as nat) matches Result::Err(
                e,
            ) && inc_fault_for(f, e),
        },
    decreases INCLUDE_DEPTH_CAP - depth,
{
    let ghost s0 = insts@;
    let ghost fv = files.files@;
    let mut out: Vec<Instruction> = Vec::new();
    let mut i: usize = 0;
    proof {
        assert(s0.skip(0) =~= s0);
        assert(out@ =~= Seq::<Instruction>::empty());
    }
    while i < insts.len()
        invariant
            insts@ == s0,
            fv == files.files@,
            depth <= INCLUDE_DEPTH_CAP,
            i <= s0.len(),
            (match inc_rec(s0.skip(i as int), fv, base@, depth as nat) {
                Result::Ok(rest) => inc_rec(s0, fv, base@, depth as nat)
                    == Result::<Seq<Instruction>, IncErrV>::Ok(out@ + rest),
                Result::Err(e) => inc_rec(s0, fv, base@, depth as nat) == Result::<
                    Seq<Instruction>,
                    IncErrV,
                >::Err(e),
            }),
        decreases s0.len() - i,
    {
        let ghost pre_out = out@;
        let is_include = match &insts[i].kind {
            InstructionKind::Keyword(Keyword::Include) => true,
            _ => false,
        };
        if is_include {
            proof {
                assert(s0.skip(i as int)[0] == s0[i as int]);
            }
            if i + 1 >= insts.len() {
                proof {
                    assert(s0.skip(i as int).len() < 2);
                }
                let m = insts[i].kind.text();
                let loc = insts[i].loc.clone();
                return Result::Err(
                    Fault {
                        error: Error::PreprocessorError(PreprocessorError::InvalidInclude(m)),
                        ip: 0,
                        loc,
                        secondary: None,
                    },
                );
            }
            proof {
                assert(s0.skip(i as int)[1] == s0[i + 1]);
            }
            let arg_is_str = match &insts[i + 1].kind {
                InstructionKind::Push(Value::Str(_)) => true,
                _ => false,
            };
            if !arg_is_str {
                let m = insts[i + 1].kind.text();
                let loc = insts[i + 1].loc.clone();
                return Result::Err(
                    Fault {
                        error: Error::PreprocessorError(PreprocessorError::InvalidInclude(m)),
                        ip: 0,
                        loc,
                        secondary: None,
                    },
                );
            }
            let p: String = match &insts[i + 1].kind {
                InstructionKind::Push(Value::Str(sp)) => sp.clone(),
                _ => String::new(),
            };
            let full = join_path_exec(base, &p);
            match find_file(files, &full) {
                None => {
                    let loc = insts[i + 1].loc.clone();
                    return Result::Err(
                        Fault {
                            error: Error::PreprocessorError(
                                PreprocessorError::IncludeNotFound(p),
                            ),
                            ip: 0,
                            loc,
                            secondary: None,
                        },
                    );
                },
                Some(file) => {
                    if depth + 1 > INCLUDE_DEPTH_CAP {
                        let loc = insts[i].loc.clone();
                        return Result::Err(
                            Fault {
                                error: Error::PreprocessorError(
                                    PreprocessorError::RecursiveInclude,
                                ),
                                ip: 0,
                                loc,
                                secondary: None,
                            },
                        );
                    }
                    match includes(&file.instructions, files, file.base_path.as_str(), depth + 1) {
                        Result::Err(f) => {
                            return Result::Err(f);
                        },
                        Result::Ok(mut sub) => {
                            let ghost subv = sub@;
                            out.append(&mut sub);
                            i = i + 2;
                            proof {
                                assert(s0.skip(i - 2).skip(2) =~= s0.skip(i as int));
                                assert(out@ == pre_out + subv);
                                match inc_rec(s0.skip(i as int), fv, base@, depth as nat) {
                                    Result::Ok(rest) => {
                                        assert(pre_out + (subv + rest) =~= out@ + rest);
                                    },
                                    Result::Err(e) => {},
                                }
                            }
                        },
                    }
                },
            }
        } else {
            out.push(insts[i].clone());
            i = i + 1;
            proof {
                assert(s0.skip(i - 1)[0] == s0[i - 1]);
                assert(s0.skip(i - 1).skip(1) =~= s0.skip(i as int));
                match inc_rec(s0.skip(i as int), fv, base@, depth as nat) {
                    Result::Ok(rest) => {
                        assert(pre_out + (seq![s0[i - 1]] + rest) =~= out@ + rest);
                    },
                    Result::Err(e) => {},
                }
            }
        }
    }
    proof {
        assert(s0.skip(s0.len() as int) =~= Seq::<Instruction>::empty());
        assert(out@ + Seq::<Instruction>::empty() =~= out@);
    }
    Result::Ok(out)
}


/// The macro-expansion pass cap: a macro set that has not reached a
/// fixpoint after this many passes is self-referential by design and is
/// reported rather than expanded forever.
pub const MACRO_EXPANSION_CAP: usize = 100;

/// Collection and expansion repeated to a fixpoint: each pass records the
/// array's macro definitions (last writer wins) and substitutes free
/// references; the loop ends with the first pass that substitutes
/// nothing, or fails after the pass cap.
pub open spec fn expand_fix(s: Seq<Instruction>, macros: Seq<MacroV>, fuel: nat) -> Result<
    (Seq<Instruction>, Seq<MacroV>),
    PPErrV,
>
    decreases fuel,
{
    match collect_rec(s, 0, Seq::empty(), false, None, Seq::empty(), 0, None, macros) {
        Result::Err(e) => Result::Err(e),
        Result::Ok(ms) => match expand_rec(s, 0, Seq::empty(), false, 0, Seq::empty(), false, ms) {
            Result::Err(e) => Result::Err(e),
            Result::Ok(oc) => if !oc.1 {
                Result::Ok((oc.0, ms))
            } else if fuel <= 1 {
                Result::Err(
                    PPErrV::TooMany {
                        loc: if s.len() > 0 {
                            Some(s[0].loc)
                        } else {
                            None
                        },
                    },
                )
            } else {
                expand_fix(oc.0, ms, (fuel - 1) as nat)
            },
        },
    }
}

/// Copy a macro table.
fn clone_macros(ms: &Vec<Macro>) -> (r: Vec<Macro>)
    ensures
        macrosv(r@) == macrosv(ms@),
{
    let mut r: Vec<Macro> = Vec::new();
    let mut k: usize = 0;
    while k < ms.len()
        invariant
            k <= ms@.len(),
            r@.len() == k,
            macrosv(r@) == macrosv(ms@).take(k as int),
        decreases ms@.len() - k,
    {
        let c0 = ms[k].clone();
        let ghost c0v = c0;
        proof {
            assert(c0.name == ms@[k as int].name);
        }
        r.push(c0);
        k = k + 1;
        proof {
            assert(r@[k - 1] == c0v);
            let c = r@[k - 1];
            let d = ms@[k - 1];
            assert(c.name == d.name);
            assert(c.body@ == d.body@);
            assert(c.loc == d.loc);
            assert(c@ == d@);
            assert(macrosv(r@)[k - 1] == macrosv(ms@)[k - 1]);
            assert(macrosv(r@) =~= macrosv(ms@).take(k as int));
        }
    }
    proof {
        assert(macrosv(ms@).take(ms@.len() as int) =~= macrosv(ms@));
    }
    r
}

/// The include resolution of the array followed by location-literal
/// substitution, pinned up to the identity of the substituted strings.
pub open spec fn preprocessed(
    s: Seq<Instruction>,
    files: Seq<SourceFile>,
    base: Seq<char>,
    h: Seq<Instruction>,
) -> bool {
    inc_rec(s, files, base, 0) matches Result::Ok(inced) && here_rel(inced, h)
}

/// Run the whole preprocessing pipeline over a program, against a table
/// of parsed include sources: resolve includes, substitute `here`
/// location literals, collect and expand macros to a fixpoint, assign
/// final instruction pointers, and resolve all control-flow jump targets.
/// The result is the fully preprocessed, fully resolved program; the
/// first failure of any stage is reported with its source location.
pub fn process(program: &Program, sources: &SourceSet) -> (r: Result<Program, Fault>)
    ensures
        match r {
            Result::Ok(p2) => exists|h: Seq<Instruction>|
                {
                    &&& #[trigger] preprocessed(
                        program.instructions@,
                        sources.files@,
                        program.base_path@,
                        h,
                    )
                    &&& expand_fix(
                        h,
                        macrosv(program.macros@),
                        MACRO_EXPANSION_CAP as nat,
                    ) matches Result::Ok(em) && resolve_seq(assign_ips(em.0)) matches Result::Ok(out)
                        && p2.instructions@ == out && macrosv(p2.macros@) == em.1
                    &&& p2.name == program.name
                    &&& p2.base_path == program.base_path
                    &&& program.macros_wf() ==> p2.macros_wf()
                },
            Result::Err(f) => {
                ||| inc_rec(
                    program.instructions@,
                    sources.files@,
                    program.base_path@,
                    0,
                ) matches Result::Err(e) && inc_fault_for(f, e)
                ||| exists|h: Seq<Instruction>|
                    {
                        &&& #[trigger] preprocessed(
                            program.instructions@,
                            sources.files@,
                            program.base_path@,
                            h,
                        )
                        &&& expand_fix(
                            h,
                            macrosv(program.macros@),
                            MACRO_EXPANSION_CAP as nat,
                        ) matches Result::Err(pe) && pp_fault_for(f, pe)
                    }
                ||| exists|h: Seq<Instruction>|
                    {
                        &&& #[trigger] preprocessed(
                            program.instructions@,
                            sources.files@,
                            program.base_path@,
                            h,
                        )
                        &&& expand_fix(
                            h,
                            macrosv(program.macros@),
                            MACRO_EXPANSION_CAP as nat,
                        ) matches Result::Ok(em) && resolve_seq(assign_ips(em.0)) matches Result::Err(
                            e,
                        ) && fault_for(f, e, assign_ips(em.0))
                    }
            },
        },
{
    let ghost s_in = program.instructions@;
    let ghost filesv = sources.files@;
    let ghost basev = program.base_path@;
    let ghost m_in = macrosv(program.macros@);
    let mut cur: Vec<Instruction>;
    match includes(&program.instructions, sources, program.base_path.as_str(), 0) {
        Result::Err(f) => {
            return Result::Err(f);
        },
        Result::Ok(inced) => {
            cur = inced;
        },
    }
    here(&mut cur);
    let ghost hv = cur@;
    proof {
        assert(preprocessed(s_in, filesv, basev, hv));
    }
    let mut macros: Vec<Macro> = clone_macros(&program.macros);
    let mut fuel: usize = MACRO_EXPANSION_CAP;
    loop
        invariant_except_break
            s_in == program.instructions@,
            filesv == sources.files@,
            basev == program.base_path@,
            m_in == macrosv(program.macros@),
            preprocessed(s_in, filesv, basev, hv),
            1 <= fuel <= MACRO_EXPANSION_CAP,
            expand_fix(hv, m_in, MACRO_EXPANSION_CAP as nat) == expand_fix(
                cur@,
                macrosv(macros@),
                fuel as nat,
            ),
        ensures
            s_in == program.instructions@,
            filesv == sources.files@,
            basev == program.base_path@,
            m_in == macrosv(program.macros@),
            preprocessed(s_in, filesv, basev, hv),
            expand_fix(hv, m_in, MACRO_EXPANSION_CAP as nat) matches Result::Ok(em) && em.0 == cur@
                && em.1 == macrosv(macros@),
        decreases fuel,
    {
        let ghost pre_cur = cur@;
        let ghost pre_macros = macrosv(macros@);
        let in_loc: Option<Loc> = if cur.len() > 0 {
            Some(cur[0].loc.clone())
        } else {
            None
        };
        match collect_macros(&cur, &mut macros) {
            Result::Err(f) => {
                proof {
                    assert(expand_fix(hv, m_in, MACRO_EXPANSION_CAP as nat) is Err);
                }
                return Result::Err(f);
            },
            Result::Ok(()) => {},
        }
        match expand_macros(&cur, &macros) {
            Result::Err(f) => {
                return Result::Err(f);
            },
            Result::Ok((out, changed)) => {
                cur = out;
                if !changed {
                    break ;
                }
                if fuel <= 1 {
                    proof {
                        let pe = PPErrV::TooMany {
                            loc: if pre_cur.len() > 0 {
                                Some(pre_cur[0].loc)
                            } else {
                                None
                            },
                        };
                        assert(expand_fix(hv, m_in, MACRO_EXPANSION_CAP as nat) == Result::<
                            (Seq<Instruction>, Seq<MacroV>),
                            PPErrV,
                        >::Err(pe));
                    }
                    match in_loc {
                        Some(l) => {
                            return Result::Err(
                                mk_pp_fault(PreprocessorError::TooManyMacroExpansions, 0, l),
                            );
                        },
                        None => {
                            return Result::Err(
                                mk_pp_fault(
                                    PreprocessorError::TooManyMacroExpansions,
                                    0,
                                    Loc { file: String::new(), line: 0, col: 0 },
                                ),
                            );
                        },
                    }
                }
                fuel = fuel - 1;
            },
        }
    }
    ips(&mut cur);
    match jumps(&cur) {
        Result::Err(f) => {
            return Result::Err(f);
        },
        Result::Ok(resolved) => {
            proof {
                if program.macros_wf() {
                    assert(unique_names(m_in)) by {
                        assert forall|i: int, j: int|
                            0 <= i < j < m_in.len() implies m_in[i].name@ != m_in[j].name@ by {
                            assert(m_in[i] == program.macros@[i]@);
                            assert(m_in[j] == program.macros@[j]@);
                        }
                    }
                    lemma_expand_fix_unique(hv, m_in, MACRO_EXPANSION_CAP as nat);
                    assert forall|i: int, j: int|
                        0 <= i < j < macros@.len() implies macros@[i].name@
                        != macros@[j].name@ by {
                        assert(macrosv(macros@)[i] == macros@[i]@);
                        assert(macrosv(macros@)[j] == macros@[j]@);
                    }
                }
            }
            Result::Ok(
                Program {
                    name: program.name.clone(),
                    base_path: program.base_path.clone(),
                    instructions: resolved,
                    macros,
                },
            )
        },
    }
}

/// Fixpoint termination for the macro-free case: expansion of an array
/// holding no macro definition and no macro reference substitutes
/// nothing, so the fixpoint is reached in a single pass and the array
/// comes through unchanged.
pub proof fn lemma_expansion_macro_free(s: Seq<Instruction>, macros: Seq<MacroV>, fuel: nat)
    requires
        forall|j: int|
            0 <= j < s.len() ==> !((#[trigger] s[j]).kind matches InstructionKind::Name(_)) && !(
            s[j].kind matches InstructionKind::Keyword(Keyword::Macro)),
        fuel >= 1,
        expand_fix(s, macros, fuel) is Ok,
    ensures
        expand_fix(s, macros, fuel)->Ok_0.0 == s,
{
    let c = collect_rec(s, 0, Seq::empty(), false, None, Seq::empty(), 0, None, macros);
    if c is Ok {
        let ms = c->Ok_0;
        lemma_expand_rec_macro_free(s, 0, Seq::empty(), Seq::empty(), false, ms);
        assert(s.skip(0) =~= s);
        assert(Seq::<Instruction>::empty() + s =~= s);
    }
}

proof fn lemma_expand_rec_macro_free(
    s: Seq<Instruction>,
    i: nat,
    stack: Seq<CTag>,
    out: Seq<Instruction>,
    changed: bool,
    macros: Seq<MacroV>,
)
    requires
        i <= s.len(),
        forall|j: int|
            0 <= j < s.len() ==> !((#[trigger] s[j]).kind matches InstructionKind::Name(_)) && !(
            s[j].kind matches InstructionKind::Keyword(Keyword::Macro)),
        expand_rec(s, i, stack, false, 0, out, changed, macros) is Ok,
    ensures
        expand_rec(s, i, stack, false, 0, out, changed, macros)->Ok_0 == (
            out + s.skip(i as int),
            changed,
        ),
    decreases s.len() - i,
{
    if i >= s.len() {
        assert(s.skip(i as int) =~= Seq::<Instruction>::empty());
        assert(out + s.skip(i as int) =~= out);
    } else {
        let inst = s[i as int];
        let out1 = out.push(inst);
        assert(out1 + s.skip(i as int + 1) =~= out + s.skip(i as int));
        match inst.kind {
            InstructionKind::Keyword(Keyword::If) => {
                lemma_expand_rec_macro_free(s, i + 1, stack.push(CTag::IfTag), out1, changed, macros);
            },
            InstructionKind::Keyword(Keyword::While { .. }) => {
                lemma_expand_rec_macro_free(
                    s,
                    i + 1,
                    stack.push(CTag::WhileTag),
                    out1,
                    changed,
                    macros,
                );
            },
            InstructionKind::Keyword(Keyword::Do { .. }) => {
                lemma_expand_rec_macro_free(
                    s,
                    i + 1,
                    stack.drop_last().push(CTag::DoTag),
                    out1,
                    changed,
                    macros,
                );
            },
            InstructionKind::Keyword(Keyword::Elif { .. }) => {
                lemma_expand_rec_macro_free(
                    s,
                    i + 1,
                    stack.drop_last().push(CTag::ElifTag),
                    out1,
                    changed,
                    macros,
                );
            },
            InstructionKind::Keyword(Keyword::Else { .. }) => {
                lemma_expand_rec_macro_free(
                    s,
                    i + 1,
                    stack.drop_last().push(CTag::ElseTag),
                    out1,
                    changed,
                    macros,
                );
            },
            InstructionKind::Keyword(Keyword::End { .. }) => {
                lemma_expand_rec_macro_free(s, i + 1, stack.drop_last(), out1, changed, macros);
            },
            _ => {
                lemma_expand_rec_macro_free(s, i + 1, stack, out1, changed, macros);
            },
        }
    }
}


/// No macro definition begins anywhere in the array.
pub open spec fn no_macro_defs(s: Seq<Instruction>) -> bool {
    forall|j: int|
        0 <= j < s.len() ==> !((#[trigger] s[j]).kind matches InstructionKind::Keyword(
            Keyword::Macro,
        ))
}

/// No recorded body defines a nested macro.
pub open spec fn table_bodies_clean(ms: Seq<MacroV>) -> bool {
    forall|k: int| 0 <= k < ms.len() ==> no_macro_defs((#[trigger] ms[k]).body)
}

proof fn lemma_contains_member(a: Seq<Instruction>, b: Seq<Instruction>, w: int)
    requires
        0 <= w < b.len(),
    ensures
        (a + b).contains(b[w]),
{
    assert((a + b)[a.len() + w] == b[w]);
}

proof fn lemma_contains_still(a: Seq<Instruction>, b: Seq<Instruction>, x: Instruction)
    requires
        a.contains(x),
    ensures
        (a + b).contains(x),
        a.push(x).contains(x),
{
    let w = choose|w: int| 0 <= w < a.len() && a[w] == x;
    assert((a + b)[w] == x);
    assert(a.push(x)[w] == x);
}

proof fn lemma_contains_push(a: Seq<Instruction>, y: Instruction, x: Instruction)
    requires
        a.contains(x),
    ensures
        a.push(y).contains(x),
{
    let w = choose|w: int| 0 <= w < a.len() && a[w] == x;
    assert(a.push(y)[w] == x);
}

/// Collection over an array with no macro definitions records nothing:
/// the table comes through unchanged.
proof fn lemma_collect_no_defs(
    s: Seq<Instruction>,
    i: nat,
    stack: Seq<CTag>,
    mbody: Seq<Instruction>,
    mstart: usize,
    mloc: Option<Loc>,
    macros: Seq<MacroV>,
)
    requires
        no_macro_defs(s),
        collect_rec(s, i, stack, false, None, mbody, mstart, mloc, macros) is Ok,
    ensures
        collect_rec(s, i, stack, false, None, mbody, mstart, mloc, macros) == Result::<
            Seq<MacroV>,
            PPErrV,
        >::Ok(macros),
    decreases s.len() - i,
{
    if i < s.len() {
        let inst = s[i as int];
        match inst.kind {
            InstructionKind::Keyword(Keyword::Macro) => {
                assert(false);
            },
            InstructionKind::Name(_) => {
                lemma_collect_no_defs(s, i + 1, stack, mbody, mstart, mloc, macros);
            },
            InstructionKind::Keyword(Keyword::If) => {
                lemma_collect_no_defs(s, i + 1, stack.push(CTag::IfTag), mbody, mstart, mloc, macros);
            },
            InstructionKind::Keyword(Keyword::While { .. }) => {
                lemma_collect_no_defs(
                    s,
                    i + 1,
                    stack.push(CTag::WhileTag),
                    mbody,
                    mstart,
                    mloc,
                    macros,
                );
            },
            InstructionKind::Keyword(Keyword::Do { .. }) => {
                if stack.len() != 0 {
                    match stack.last() {
                        CTag::IfTag | CTag::ElifTag | CTag::WhileTag => {
                            lemma_collect_no_defs(
                                s,
                                i + 1,
                                stack.drop_last().push(CTag::DoTag),
                                mbody,
                                mstart,
                                mloc,
                                macros,
                            );
                        },
                        _ => {},
                    }
                }
            },
            InstructionKind::Keyword(Keyword::Elif { .. }) => {
                if stack.len() != 0 && stack.last() == CTag::DoTag {
                    lemma_collect_no_defs(
                        s,
                        i + 1,
                        stack.drop_last().push(CTag::ElifTag),
                        mbody,
                        mstart,
                        mloc,
                        macros,
                    );
                }
            },
            InstructionKind::Keyword(Keyword::Else { .. }) => {
                if stack.len() != 0 && stack.last() == CTag::DoTag {
                    lemma_collect_no_defs(
                        s,
                        i + 1,
                        stack.drop_last().push(CTag::ElseTag),
                        mbody,
                        mstart,
                        mloc,
                        macros,
                    );
                }
            },
            InstructionKind::Keyword(Keyword::End { .. }) => {
                if stack.len() != 0 && stack.last() != CTag::MacroTag {
                    lemma_collect_no_defs(
                        s,
                        i + 1,
                        stack.drop_last(),
                        mbody,
                        mstart,
                        mloc,
                        macros,
                    );
                }
            },
            _ => {
                lemma_collect_no_defs(s, i + 1, stack, mbody, mstart, mloc, macros);
            },
        }
    }
}

/// Through a successful expansion pass over a definition-free array with
/// a definition-free table, the output keeps everything already emitted,
/// the substitution flag never falls, and the output is definition-free.
proof fn lemma_expand_monotone(
    s: Seq<Instruction>,
    i: nat,
    stack: Seq<CTag>,
    mstart: usize,
    out: Seq<Instruction>,
    changed: bool,
    ms: Seq<MacroV>,
)
    requires
        no_macro_defs(s),
        table_bodies_clean(ms),
        no_macro_defs(out),
        expand_rec(s, i, stack, false, mstart, out, changed, ms) is Ok,
    ensures
        expand_rec(s, i, stack, false, mstart, out, changed, ms) matches Result::Ok(oc) && {
            &&& changed ==> oc.1
            &&& forall|x: Instruction| out.contains(x) ==> #[trigger] oc.0.contains(x)
            &&& no_macro_defs(oc.0)
        },
    decreases s.len() - i,
{
    if i < s.len() {
        let inst = s[i as int];
        let out1 = out.push(inst);
        assert(no_macro_defs(out1)) by {
            assert forall|j: int|
                0 <= j < out1.len() implies !((#[trigger] out1[j]).kind
                matches InstructionKind::Keyword(Keyword::Macro)) by {
                if j < out.len() {
                    assert(out1[j] == out[j]);
                } else {
                    assert(out1[j] == inst);
                }
            }
        }
        assert forall|x: Instruction| out.contains(x) implies #[trigger] out1.contains(x) by {
            lemma_contains_push(out, inst, x);
        }
        match inst.kind {
            InstructionKind::Keyword(Keyword::Macro) => {
                assert(false);
            },
            InstructionKind::Name(n) => {
                match mac_lookup(ms, n@) {
                    Some(m) => {
                        let out2 = out + m.body;
                        lemma_name_lookup(ms, n@);
                        assert(no_macro_defs(out2)) by {
                            assert forall|j: int|
                                0 <= j < out2.len() implies !((#[trigger] out2[j]).kind
                                matches InstructionKind::Keyword(Keyword::Macro)) by {
                                if j < out.len() {
                                    assert(out2[j] == out[j]);
                                } else {
                                    assert(out2[j] == m.body[j - out.len()]);
                                    assert(no_macro_defs(m.body));
                                }
                            }
                        }
                        assert forall|x: Instruction| out.contains(x) implies #[trigger] out2.contains(
                            x,
                        ) by {
                            lemma_contains_still(out, m.body, x);
                        }
                        lemma_expand_monotone(s, i + 1, stack, mstart, out2, true, ms);
                    },
                    None => {
                        lemma_expand_monotone(s, i + 1, stack, mstart, out1, changed, ms);
                    },
                }
            },
            InstructionKind::Keyword(Keyword::If) => {
                lemma_expand_monotone(s, i + 1, stack.push(CTag::IfTag), mstart, out1, changed, ms);
            },
            InstructionKind::Keyword(Keyword::While { .. }) => {
                lemma_expand_monotone(
                    s,
                    i + 1,
                    stack.push(CTag::WhileTag),
                    mstart,
                    out1,
                    changed,
                    ms,
                );
            },
            InstructionKind::Keyword(Keyword::Do { .. }) => {
                if stack.len() != 0 && (stack.last() == CTag::IfTag || stack.last() == CTag::ElifTag
                    || stack.last() == CTag::WhileTag) {
                    lemma_expand_monotone(
                        s,
                        i + 1,
                        stack.drop_last().push(CTag::DoTag),
                        mstart,
                        out1,
                        changed,
                        ms,
                    );
                }
            },
            InstructionKind::Keyword(Keyword::Elif { .. }) => {
                if stack.len() != 0 && stack.last() == CTag::DoTag {
                    lemma_expand_monotone(
                        s,
                        i + 1,
                        stack.drop_last().push(CTag::ElifTag),
                        mstart,
                        out1,
                        changed,
                        ms,
                    );
                }
            },
            InstructionKind::Keyword(Keyword::Else { .. }) => {
                if stack.len() != 0 && stack.last() == CTag::DoTag {
                    lemma_expand_monotone(
                        s,
                        i + 1,
                        stack.drop_last().push(CTag::ElseTag),
                        mstart,
                        out1,
                        changed,
                        ms,
                    );
                }
            },
            InstructionKind::Keyword(Keyword::End { .. }) => {
                if stack.len() != 0 && stack.last() != CTag::MacroTag {
                    lemma_expand_monotone(
                        s,
                        i + 1,
                        stack.drop_last(),
                        mstart,
                        out1,
                        changed,
                        ms,
                    );
                }
            },
            _ => {
                lemma_expand_monotone(s, i + 1, stack, mstart, out1, changed, ms);
            },
        }
    }
}

/// A successful expansion pass over a definition-free array that still
/// holds a reference to a recorded macro substitutes it: the pass reports
/// a change and the output holds every element of that macro's body.
proof fn lemma_expand_hits(
    s: Seq<Instruction>,
    i: nat,
    stack: Seq<CTag>,
    mstart: usize,
    out: Seq<Instruction>,
    changed: bool,
    ms: Seq<MacroV>,
    q: int,
    nm: String,
)
    requires
        no_macro_defs(s),
        table_bodies_clean(ms),
        no_macro_defs(out),
        i <= q < s.len(),
        s[q].kind == InstructionKind::Name(nm),
        mac_lookup(ms, nm@) is Some,
        expand_rec(s, i, stack, false, mstart, out, changed, ms) is Ok,
    ensures
        expand_rec(s, i, stack, false, mstart, out, changed, ms) matches Result::Ok(oc) && {
            &&& oc.1
            &&& forall|b: int|
                0 <= b < mac_lookup(ms, nm@)->Some_0.body.len() ==> #[trigger] oc.0.contains(
                    mac_lookup(ms, nm@)->Some_0.body[b],
                )
            &&& no_macro_defs(oc.0)
        },
    decreases s.len() - i,
{
    let inst = s[i as int];
    let out1 = out.push(inst);
    assert(no_macro_defs(out1)) by {
        assert forall|j: int|
            0 <= j < out1.len() implies !((#[trigger] out1[j]).kind
            matches InstructionKind::Keyword(Keyword::Macro)) by {
            if j < out.len() {
                assert(out1[j] == out[j]);
            } else {
                assert(out1[j] == inst);
            }
        }
    }
    if i == q {
        match inst.kind {
            InstructionKind::Name(n) => {
                let m = mac_lookup(ms, n@)->Some_0;
                let out2 = out + m.body;
                assert(no_macro_defs(out2)) by {
                    lemma_name_lookup(ms, n@);
                    assert forall|j: int|
                        0 <= j < out2.len() implies !((#[trigger] out2[j]).kind
                        matches InstructionKind::Keyword(Keyword::Macro)) by {
                        if j < out.len() {
                            assert(out2[j] == out[j]);
                        } else {
                            assert(out2[j] == m.body[j - out.len()]);
                            assert(no_macro_defs(m.body));
                        }
                    }
                }
                lemma_expand_monotone(s, i + 1, stack, mstart, out2, true, ms);
                assert forall|b: int|
                    0 <= b < m.body.len() implies #[trigger] expand_rec(
                    s,
                    i,
                    stack,
                    false,
                    mstart,
                    out,
                    changed,
                    ms,
                )->Ok_0.0.contains(m.body[b]) by {
                    lemma_contains_member(out, m.body, b);
                }
            },
            _ => {
                assert(false);
            },
        }
    } else {
        match inst.kind {
            InstructionKind::Keyword(Keyword::Macro) => {
                assert(false);
            },
            InstructionKind::Name(n) => {
                match mac_lookup(ms, n@) {
                    Some(m) => {
                        let out2 = out + m.body;
                        lemma_name_lookup(ms, n@);
                        assert(no_macro_defs(out2)) by {
                            assert forall|j: int|
                                0 <= j < out2.len() implies !((#[trigger] out2[j]).kind
                                matches InstructionKind::Keyword(Keyword::Macro)) by {
                                if j < out.len() {
                                    assert(out2[j] == out[j]);
                                } else {
                                    assert(out2[j] == m.body[j - out.len()]);
                                    assert(no_macro_defs(m.body));
                                }
                            }
                        }
                        lemma_expand_hits(s, i + 1, stack, mstart, out2, true, ms, q, nm);
                    },
                    None => {
                        lemma_expand_hits(s, i + 1, stack, mstart, out1, changed, ms, q, nm);
                    },
                }
            },
            InstructionKind::Keyword(Keyword::If) => {
                lemma_expand_hits(
                    s,
                    i + 1,
                    stack.push(CTag::IfTag),
                    mstart,
                    out1,
                    changed,
                    ms,
                    q,
                    nm,
                );
            },
            InstructionKind::Keyword(Keyword::While { .. }) => {
                lemma_expand_hits(
                    s,
                    i + 1,
                    stack.push(CTag::WhileTag),
                    mstart,
                    out1,
                    changed,
                    ms,
                    q,
                    nm,
                );
            },
            InstructionKind::Keyword(Keyword::Do { .. }) => {
                if stack.len() != 0 && (stack.last() == CTag::IfTag || stack.last() == CTag::ElifTag
                    || stack.last() == CTag::WhileTag) {
                    lemma_expand_hits(
                        s,
                        i + 1,
                        stack.drop_last().push(CTag::DoTag),
                        mstart,
                        out1,
                        changed,
                        ms,
                        q,
                        nm,
                    );
                }
            },
            InstructionKind::Keyword(Keyword::Elif { .. }) => {
                if stack.len() != 0 && stack.last() == CTag::DoTag {
                    lemma_expand_hits(
                        s,
                        i + 1,
                        stack.drop_last().push(CTag::ElifTag),
                        mstart,
                        out1,
                        changed,
                        ms,
                        q,
                        nm,
                    );
                }
            },
            InstructionKind::Keyword(Keyword::Else { .. }) => {
                if stack.len() != 0 && stack.last() == CTag::DoTag {
                    lemma_expand_hits(
                        s,
                        i + 1,
                        stack.drop_last().push(CTag::ElseTag),
                        mstart,
                        out1,
                        changed,
                        ms,
                        q,
                        nm,
                    );
                }
            },
            InstructionKind::Keyword(Keyword::End { .. }) => {
                if stack.len() != 0 && stack.last() != CTag::MacroTag {
                    lemma_expand_hits(
                        s,
                        i + 1,
                        stack.drop_last(),
                        mstart,
                        out1,
                        changed,
                        ms,
                        q,
                        nm,
                    );
                }
            },
            _ => {
                lemma_expand_hits(s, i + 1, stack, mstart, out1, changed, ms, q, nm);
            },
        }
    }
}

/// Fixpoint termination for the self-referential case: when a recorded
/// macro's body references the macro itself (and the array, which defines
/// no further macros, still holds a reference to it), expansion never
/// reaches a fixpoint: every pass substitutes again, so the bounded loop
/// ends in an error — the expansion-limit error, unless a pass rejects
/// the array's nesting first — rather than running forever.
pub proof fn lemma_self_referential_macro_fails(
    s: Seq<Instruction>,
    ms: Seq<MacroV>,
    fuel: nat,
    q: int,
    nm: String,
    bq: int,
)
    requires
        fuel >= 1,
        no_macro_defs(s),
        table_bodies_clean(ms),
        0 <= q < s.len(),
        s[q].kind == InstructionKind::Name(nm),
        mac_lookup(ms, nm@) is Some,
        0 <= bq < mac_lookup(ms, nm@)->Some_0.body.len(),
        mac_lookup(ms, nm@)->Some_0.body[bq].kind matches InstructionKind::Name(n2) && n2@ == nm@,
    ensures
        !(expand_fix(s, ms, fuel) is Ok),
    decreases fuel,
{
    let c = collect_rec(s, 0, Seq::empty(), false, None, Seq::empty(), 0, None, ms);
    if c is Ok {
        lemma_collect_no_defs(s, 0, Seq::empty(), Seq::empty(), 0, None, ms);
        let ex = expand_rec(s, 0, Seq::empty(), false, 0, Seq::empty(), false, ms);
        if ex is Ok {
            lemma_expand_hits(s, 0, Seq::empty(), 0, Seq::empty(), false, ms, q, nm);
            let oc = ex->Ok_0;
            let m = mac_lookup(ms, nm@)->Some_0;
            assert(oc.0.contains(m.body[bq]));
            if fuel > 1 {
                let q2 = choose|w: int| 0 <= w < oc.0.len() && oc.0[w] == m.body[bq];
                let n2 = choose|n2: String|
                    m.body[bq].kind == InstructionKind::Name(n2) && n2@ == nm@;
                assert(oc.0[q2].kind == InstructionKind::Name(n2));
                assert(mac_lookup(ms, n2@) == mac_lookup(ms, nm@));
                lemma_self_referential_macro_fails(oc.0, ms, (fuel - 1) as nat, q2, n2, bq);
            }
        }
    }
}


/// The table keeps at most one entry per name.
pub open spec fn unique_names(ms: Seq<MacroV>) -> bool {
    forall|i: int, j: int| 0 <= i < j < ms.len() ==> ms[i].name@ != ms[j].name@
}

proof fn lemma_upsert_unique(ms: Seq<MacroV>, m: MacroV)
    requires
        unique_names(ms),
    ensures
        unique_names(upsert(ms, m)),
{
    lemma_name_lookup(ms, m.name@);
    match name_lookup_idx(ms, m.name@) {
        Some(k) => {
            let ms2 = ms.update(k, m);
            assert forall|i: int, j: int| 0 <= i < j < ms2.len() implies ms2[i].name@
                != ms2[j].name@ by {
                if i != k && j != k {
                    assert(ms2[i] == ms[i] && ms2[j] == ms[j]);
                } else if i == k {
                    assert(ms2[j] == ms[j]);
                    assert(ms[k].name@ == m.name@);
                } else {
                    assert(ms2[i] == ms[i]);
                    assert(ms[k].name@ == m.name@);
                }
            }
        },
        None => {
            let ms2 = ms.push(m);
            assert forall|i: int, j: int| 0 <= i < j < ms2.len() implies ms2[i].name@
                != ms2[j].name@ by {
                if j == ms.len() {
                    assert(ms2[i] == ms[i]);
                    assert(ms2[j] == m);
                } else {
                    assert(ms2[i] == ms[i] && ms2[j] == ms[j]);
                }
            }
        },
    }
}

proof fn lemma_collect_unique(
    s: Seq<Instruction>,
    i: nat,
    stack: Seq<CTag>,
    in_macro: bool,
    mname: Option<String>,
    mbody: Seq<Instruction>,
    mstart: usize,
    mloc: Option<Loc>,
    macros: Seq<MacroV>,
)
    requires
        unique_names(macros),
        collect_rec(s, i, stack, in_macro, mname, mbody, mstart, mloc, macros) is Ok,
    ensures
        unique_names(
            collect_rec(s, i, stack, in_macro, mname, mbody, mstart, mloc, macros)->Ok_0,
        ),
    decreases s.len() - i,
{
    if i < s.len() {
        let inst = s[i as int];
        let body1 = if in_macro {
            mbody.push(inst)
        } else {
            mbody
        };
        match inst.kind {
            InstructionKind::Keyword(Keyword::Macro) => {
                lemma_collect_unique(
                    s,
                    i + 1,
                    stack.push(CTag::MacroTag),
                    true,
                    mname,
                    mbody,
                    if in_macro {
                        mstart
                    } else {
                        i as usize
                    },
                    if in_macro {
                        mloc
                    } else {
                        Some(inst.loc)
                    },
                    macros,
                );
            },
            InstructionKind::Name(n) => {
                if in_macro && mname is None {
                    lemma_collect_unique(
                        s,
                        i + 1,
                        stack,
                        in_macro,
                        Some(n),
                        mbody,
                        mstart,
                        mloc,
                        macros,
                    );
                } else {
                    lemma_collect_unique(
                        s,
                        i + 1,
                        stack,
                        in_macro,
                        mname,
                        body1,
                        mstart,
                        mloc,
                        macros,
                    );
                }
            },
            InstructionKind::Keyword(Keyword::If) => {
                lemma_collect_unique(
                    s,
                    i + 1,
                    stack.push(CTag::IfTag),
                    in_macro,
                    mname,
                    body1,
                    mstart,
                    mloc,
                    macros,
                );
            },
            InstructionKind::Keyword(Keyword::While { .. }) => {
                lemma_collect_unique(
                    s,
                    i + 1,
                    stack.push(CTag::WhileTag),
                    in_macro,
                    mname,
                    body1,
                    mstart,
                    mloc,
                    macros,
                );
            },
            InstructionKind::Keyword(Keyword::Do { .. }) => {
                if stack.len() != 0 {
                    match stack.last() {
                        CTag::IfTag | CTag::ElifTag | CTag::WhileTag => {
                            lemma_collect_unique(
                                s,
                                i + 1,
                                stack.drop_last().push(CTag::DoTag),
                                in_macro,
                                mname,
                                body1,
                                mstart,
                                mloc,
                                macros,
                            );
                        },
                        _ => {},
                    }
                }
            },
            InstructionKind::Keyword(Keyword::Elif { .. }) => {
                if stack.len() != 0 && stack.last() == CTag::DoTag {
                    lemma_collect_unique(
                        s,
                        i + 1,
                        stack.drop_last().push(CTag::ElifTag),
                        in_macro,
                        mname,
                        body1,
                        mstart,
                        mloc,
                        macros,
                    );
                }
            },
            InstructionKind::Keyword(Keyword::Else { .. }) => {
                if stack.len() != 0 && stack.last() == CTag::DoTag {
                    lemma_collect_unique(
                        s,
                        i + 1,
                        stack.drop_last().push(CTag::ElseTag),
                        in_macro,
                        mname,
                        body1,
                        mstart,
                        mloc,
                        macros,
                    );
                }
            },
            InstructionKind::Keyword(Keyword::End { .. }) => {
                if stack.len() != 0 {
                    if stack.last() == CTag::MacroTag {
                        if in_macro {
                            match mname {
                                Some(name) => {
                                    let m = MacroV {
                                        name,
                                        body: mbody,
                                        loc: MacroSpan { start: mstart, end: i as usize },
                                    };
                                    lemma_upsert_unique(macros, m);
                                    lemma_collect_unique(
                                        s,
                                        i + 1,
                                        stack.drop_last(),
                                        false,
                                        None,
                                        Seq::empty(),
                                        mstart,
                                        mloc,
                                        upsert(macros, m),
                                    );
                                },
                                None => {},
                            }
                        }
                    } else {
                        lemma_collect_unique(
                            s,
                            i + 1,
                            stack.drop_last(),
                            in_macro,
                            mname,
                            body1,
                            mstart,
                            mloc,
                            macros,
                        );
                    }
                }
            },
            _ => {
                lemma_collect_unique(s, i + 1, stack, in_macro, mname, body1, mstart, mloc, macros);
            },
        }
    }
}

/// Collection and expansion keep the macro table well-formed: starting
/// from a table with unique names, the table that reaches the fixpoint
/// still has at most one entry per name (a duplicate definition
/// overwrites rather than duplicates).
pub proof fn lemma_expand_fix_unique(s: Seq<Instruction>, macros: Seq<MacroV>, fuel: nat)
    requires
        unique_names(macros),
        expand_fix(s, macros, fuel) is Ok,
    ensures
        unique_names(expand_fix(s, macros, fuel)->Ok_0.1),
    decreases fuel,
{
    let c = collect_rec(s, 0, Seq::empty(), false, None, Seq::empty(), 0, None, macros);
    if c is Ok {
        lemma_collect_unique(s, 0, Seq::empty(), false, None, Seq::empty(), 0, None, macros);
        let ms = c->Ok_0;
        let ex = expand_rec(s, 0, Seq::empty(), false, 0, Seq::empty(), false, ms);
        if ex is Ok {
            let oc = ex->Ok_0;
            if oc.1 && fuel > 1 {
                lemma_expand_fix_unique(oc.0, ms, (fuel - 1) as nat);
            }
        }
    }
}

} // verus!
