//! The control-flow resolver: one forward pass over the (macro-free)
//! instruction array that backpatches every jump slot through an explicit
//! stack of open-block frames, with no tree built.
//!
//! The pass is mirrored, step for step, by the spec function
//! [`resolve_from`], so that the executable resolver's contract can pin the
//! whole output array, and the jump-target validity and idempotence laws
//! can be stated and proved of the same model.

use vstd::prelude::*;
use crate::error::{Error, Fault, PreprocessorError};
use crate::instruction::{Instruction, InstructionKind, Keyword};

verus! {

/// An open block on the resolver's stack. A frame records the indices of
/// the unresolved slots it must eventually fill: the pending `do` whose
/// false-branch target is still unknown, and, for `if`/`elif` chains, the
/// side list of `elif` positions whose convergence targets are patched at
/// the chain's final `end`.
#[derive(Debug)]
pub enum Frame {
    While { head: usize },
    WhileDo { head: usize, do_ip: usize },
    If { if_ip: usize },
    IfDo { if_ip: usize, do_ip: usize },
    Elif { elif_ip: usize, pending: Vec<usize> },
    ElifDo { elif_ip: usize, do_ip: usize, pending: Vec<usize> },
    Else { else_ip: usize, pending: Vec<usize> },
}

/// The mathematical view of a frame.
pub enum FrameV {
    While { head: usize },
    WhileDo { head: usize, do_ip: usize },
    If { if_ip: usize },
    IfDo { if_ip: usize, do_ip: usize },
    Elif { elif_ip: usize, pending: Seq<usize> },
    ElifDo { elif_ip: usize, do_ip: usize, pending: Seq<usize> },
    Else { else_ip: usize, pending: Seq<usize> },
}

impl View for Frame {
    type V = FrameV;

    open spec fn view(&self) -> FrameV {
        match *self {
            Frame::While { head } => FrameV::While { head },
            Frame::WhileDo { head, do_ip } => FrameV::WhileDo { head, do_ip },
            Frame::If { if_ip } => FrameV::If { if_ip },
            Frame::IfDo { if_ip, do_ip } => FrameV::IfDo { if_ip, do_ip },
            Frame::Elif { elif_ip, ref pending } => FrameV::Elif { elif_ip, pending: pending@ },
            Frame::ElifDo { elif_ip, do_ip, ref pending } => FrameV::ElifDo {
                elif_ip,
                do_ip,
                pending: pending@,
            },
            Frame::Else { else_ip, ref pending } => FrameV::Else { else_ip, pending: pending@ },
        }
    }
}

/// The views of a frame stack.
pub open spec fn framesv(fs: Seq<Frame>) -> Seq<FrameV> {
    fs.map_values(|f: Frame| f@)
}

/// The position a frame reports in diagnostics: the latest keyword that
/// created or extended it.
pub open spec fn frame_pos(f: FrameV) -> usize {
    match f {
        FrameV::While { head } => head,
        FrameV::WhileDo { do_ip, .. } => do_ip,
        FrameV::If { if_ip } => if_ip,
        FrameV::IfDo { do_ip, .. } => do_ip,
        FrameV::Elif { elif_ip, .. } => elif_ip,
        FrameV::ElifDo { do_ip, .. } => do_ip,
        FrameV::Else { else_ip, .. } => else_ip,
    }
}

/// The phrase naming a frame in diagnostics.
pub open spec fn frame_word(f: FrameV) -> Seq<char> {
    match f {
        FrameV::While { .. } => "while"@,
        FrameV::WhileDo { .. } => "while ... do"@,
        FrameV::If { .. } => "if"@,
        FrameV::IfDo { .. } => "if ... do"@,
        FrameV::Elif { .. } => "elif"@,
        FrameV::ElifDo { .. } => "elif ... do"@,
        FrameV::Else { .. } => "else"@,
    }
}

impl Frame {
    /// The position the frame reports in diagnostics.
    pub fn pos(&self) -> (r: usize)
        ensures
            r == frame_pos(self@),
    {
        match self {
            Frame::While { head } => *head,
            Frame::WhileDo { do_ip, .. } => *do_ip,
            Frame::If { if_ip } => *if_ip,
            Frame::IfDo { do_ip, .. } => *do_ip,
            Frame::Elif { elif_ip, .. } => *elif_ip,
            Frame::ElifDo { do_ip, .. } => *do_ip,
            Frame::Else { else_ip, .. } => *else_ip,
        }
    }

    /// The phrase naming the frame in diagnostics.
    pub fn word(&self) -> (r: String)
        ensures
            r@ == frame_word(self@),
    {
        match self {
            Frame::While { .. } => String::from_str("while"),
            Frame::WhileDo { .. } => String::from_str("while ... do"),
            Frame::If { .. } => String::from_str("if"),
            Frame::IfDo { .. } => String::from_str("if ... do"),
            Frame::Elif { .. } => String::from_str("elif"),
            Frame::ElifDo { .. } => String::from_str("elif ... do"),
            Frame::Else { .. } => String::from_str("else"),
        }
    }
}

/// Replace one instruction's payload, keeping its location and index (and
/// leaving the array unchanged when the index is out of range).
pub open spec fn set_kind(s: Seq<Instruction>, j: int, k: InstructionKind) -> Seq<Instruction> {
    if 0 <= j < s.len() {
        s.update(j, Instruction { kind: k, loc: s[j].loc, ip: s[j].ip })
    } else {
        s
    }
}

/// Patch a `do`'s false-branch target.
pub open spec fn patch_do(s: Seq<Instruction>, do_ip: usize, t: usize) -> Seq<Instruction> {
    set_kind(
        s,
        do_ip as int,
        InstructionKind::Keyword(Keyword::Do { false_target: Some(t) }),
    )
}

/// Patch one `elif`'s convergence target (its own position is rewritten
/// with the value the resolver gave it when it was reached).
pub open spec fn patch_elif(s: Seq<Instruction>, p: usize, t: usize) -> Seq<Instruction> {
    set_kind(
        s,
        p as int,
        InstructionKind::Keyword(Keyword::Elif { self_ip: Some(p), converge_target: Some(t) }),
    )
}

/// Patch an `else`'s convergence target.
pub open spec fn patch_else(s: Seq<Instruction>, e: usize, t: usize) -> Seq<Instruction> {
    set_kind(
        s,
        e as int,
        InstructionKind::Keyword(Keyword::Else { self_ip: Some(e), converge_target: Some(t) }),
    )
}

/// Patch every pending `elif` of a chain to converge at `t`. The written
/// value at each pending position depends only on that position and `t`,
/// so the patches are order-independent and the result is pointwise.
pub open spec fn patch_pending(s: Seq<Instruction>, pending: Seq<usize>, t: usize) -> Seq<
    Instruction,
> {
    Seq::new(
        s.len(),
        |j: int|
            if pending.contains(j as usize) {
                Instruction {
                    kind: InstructionKind::Keyword(
                        Keyword::Elif { self_ip: Some(j as usize), converge_target: Some(t) },
                    ),
                    loc: s[j].loc,
                    ip: s[j].ip,
                }
            } else {
                s[j]
            },
    )
}

/// Why resolution stopped, in the model: a control keyword found after the
/// wrong frame (or after none), or end of input with a block still open.
pub enum ResolveErrV {
    Unexpected { word: Seq<char>, ip: usize, popped: Option<FrameV> },
    Unclosed { top: FrameV },
}

/// The resolver's single forward pass, from position `i` with the given
/// open-frame stack. Returns the fully patched array, or the first error.
pub open spec fn resolve_from(
    s: Seq<Instruction>,
    i: nat,
    frames: Seq<FrameV>,
) -> Result<Seq<Instruction>, ResolveErrV>
    decreases s.len() - i,
{
    if i >= s.len() {
        if frames.len() == 0 {
            Result::Ok(s)
        } else {
            Result::Err(ResolveErrV::Unclosed { top: frames.last() })
        }
    } else {
        let ip = i as usize;
        match s[i as int].kind {
            InstructionKind::Keyword(kw) => match kw {
                Keyword::While { .. } => resolve_from(
                    set_kind(
                        s,
                        i as int,
                        InstructionKind::Keyword(Keyword::While { self_ip: Some(ip) }),
                    ),
                    i + 1,
                    frames.push(FrameV::While { head: ip }),
                ),
                Keyword::If => resolve_from(s, i + 1, frames.push(FrameV::If { if_ip: ip })),
                Keyword::Do { .. } => {
                    if frames.len() == 0 {
                        Result::Err(
                            ResolveErrV::Unexpected { word: "do"@, ip, popped: None },
                        )
                    } else {
                        let f = frames.last();
                        let rest = frames.drop_last();
                        match f {
                            FrameV::While { head } => resolve_from(
                                s,
                                i + 1,
                                rest.push(FrameV::WhileDo { head, do_ip: ip }),
                            ),
                            FrameV::If { if_ip } => resolve_from(
                                s,
                                i + 1,
                                rest.push(FrameV::IfDo { if_ip, do_ip: ip }),
                            ),
                            FrameV::Elif { elif_ip, pending } => resolve_from(
                                s,
                                i + 1,
                                rest.push(FrameV::ElifDo { elif_ip, do_ip: ip, pending }),
                            ),
                            _ => Result::Err(
                                ResolveErrV::Unexpected { word: "do"@, ip, popped: Some(f) },
                            ),
                        }
                    }
                },
                Keyword::Elif { .. } => {
                    if frames.len() == 0 {
                        Result::Err(
                            ResolveErrV::Unexpected { word: "elif"@, ip, popped: None },
                        )
                    } else {
                        let f = frames.last();
                        let rest = frames.drop_last();
                        match f {
                            FrameV::IfDo { do_ip, .. } => resolve_from(
                                set_kind(
                                    patch_do(s, do_ip, ip),
                                    i as int,
                                    InstructionKind::Keyword(
                                        Keyword::Elif { self_ip: Some(ip), converge_target: None },
                                    ),
                                ),
                                i + 1,
                                rest.push(
                                    FrameV::Elif { elif_ip: ip, pending: seq![ip] },
                                ),
                            ),
                            FrameV::ElifDo { do_ip, pending, .. } => resolve_from(
                                set_kind(
                                    patch_do(s, do_ip, ip),
                                    i as int,
                                    InstructionKind::Keyword(
                                        Keyword::Elif { self_ip: Some(ip), converge_target: None },
                                    ),
                                ),
                                i + 1,
                                rest.push(
                                    FrameV::Elif { elif_ip: ip, pending: pending.push(ip) },
                                ),
                            ),
                            _ => Result::Err(
                                ResolveErrV::Unexpected { word: "elif"@, ip, popped: Some(f) },
                            ),
                        }
                    }
                },
                Keyword::Else { .. } => {
                    if frames.len() == 0 {
                        Result::Err(
                            ResolveErrV::Unexpected { word: "else"@, ip, popped: None },
                        )
                    } else {
                        let f = frames.last();
                        let rest = frames.drop_last();
                        match f {
                            FrameV::IfDo { do_ip, .. } => resolve_from(
                                set_kind(
                                    patch_do(s, do_ip, ip),
                                    i as int,
                                    InstructionKind::Keyword(
                                        Keyword::Else { self_ip: Some(ip), converge_target: None },
                                    ),
                                ),
                                i + 1,
                                rest.push(
                                    FrameV::Else { else_ip: ip, pending: Seq::empty() },
                                ),
                            ),
                            FrameV::ElifDo { do_ip, pending, .. } => resolve_from(
                                set_kind(
                                    patch_do(s, do_ip, ip),
                                    i as int,
                                    InstructionKind::Keyword(
                                        Keyword::Else { self_ip: Some(ip), converge_target: None },
                                    ),
                                ),
                                i + 1,
                                rest.push(FrameV::Else { else_ip: ip, pending }),
                            ),
                            _ => Result::Err(
                                ResolveErrV::Unexpected { word: "else"@, ip, popped: Some(f) },
                            ),
                        }
                    }
                },
                Keyword::End { .. } => {
                    if frames.len() == 0 {
                        Result::Err(
                            ResolveErrV::Unexpected { word: "end"@, ip, popped: None },
                        )
                    } else {
                        let f = frames.last();
                        let rest = frames.drop_last();
                        match f {
                            FrameV::WhileDo { head, do_ip } => resolve_from(
                                set_kind(
                                    patch_do(s, do_ip, ip),
                                    i as int,
                                    InstructionKind::Keyword(
                                        Keyword::End {
                                            self_ip: Some(ip),
                                            loop_back_target: Some(head),
                                        },
                                    ),
                                ),
                                i + 1,
                                rest,
                            ),
                            FrameV::IfDo { do_ip, .. } => resolve_from(
                                set_kind(
                                    patch_do(s, do_ip, ip),
                                    i as int,
                                    InstructionKind::Keyword(
                                        Keyword::End { self_ip: Some(ip), loop_back_target: None },
                                    ),
                                ),
                                i + 1,
                                rest,
                            ),
                            FrameV::ElifDo { do_ip, pending, .. } => resolve_from(
                                set_kind(
                                    patch_pending(patch_do(s, do_ip, ip), pending, ip),
                                    i as int,
                                    InstructionKind::Keyword(
                                        Keyword::End { self_ip: Some(ip), loop_back_target: None },
                                    ),
                                ),
                                i + 1,
                                rest,
                            ),
                            FrameV::Else { else_ip, pending } => resolve_from(
                                set_kind(
                                    patch_pending(patch_else(s, else_ip, ip), pending, ip),
                                    i as int,
                                    InstructionKind::Keyword(
                                        Keyword::End { self_ip: Some(ip), loop_back_target: None },
                                    ),
                                ),
                                i + 1,
                                rest,
                            ),
                            _ => Result::Err(
                                ResolveErrV::Unexpected { word: "end"@, ip, popped: Some(f) },
                            ),
                        }
                    }
                },
                Keyword::Macro | Keyword::Include => resolve_from(s, i + 1, frames),
            },
            _ => resolve_from(s, i + 1, frames),
        }
    }
}

/// Resolution of a whole array, from an empty frame stack.
pub open spec fn resolve_seq(s: Seq<Instruction>) -> Result<Seq<Instruction>, ResolveErrV> {
    resolve_from(s, 0, Seq::empty())
}

/// The message of an `UnexpectedKeyword` diagnostic.
pub open spec fn unexpected_text(word: Seq<char>, popped: Option<FrameV>) -> Seq<char> {
    word + " following "@ + match popped {
        Option::Some(f) => frame_word(f),
        Option::None => "nothing"@,
    }
}

/// The view of a popped frame, if any.
pub open spec fn popped_view(p: Option<Frame>) -> Option<FrameV> {
    match p {
        Option::Some(f) => Option::Some(f@),
        Option::None => Option::None,
    }
}

/// How an executable fault corresponds to the model's error: same kind,
/// same message, same offending position and secondary position, and the
/// location copied from the offending instruction.
pub open spec fn fault_for(f: Fault, e: ResolveErrV, s: Seq<Instruction>) -> bool {
    match e {
        ResolveErrV::Unexpected { word, ip, popped } => {
            &&& f.ip == ip
            &&& ip < s.len() && f.loc == s[ip as int].loc
            &&& f.secondary == match popped {
                Option::Some(fr) => Option::Some(frame_pos(fr)),
                Option::None => Option::None::<usize>,
            }
            &&& f.error matches Error::PreprocessorError(PreprocessorError::UnexpectedKeyword(m))
                && m@ == unexpected_text(word, popped)
        },
        ResolveErrV::Unclosed { top } => {
            &&& f.ip == frame_pos(top)
            &&& f.ip < s.len() && f.loc == s[f.ip as int].loc
            &&& f.secondary is None
            &&& f.error matches Error::PreprocessorError(PreprocessorError::UnclosedBlock(m))
                && m@ == frame_word(top)
        },
    }
}

fn mk_unexpected(word: &str, ip: usize, loc: crate::instruction::Loc, popped: Option<Frame>) -> (f:
    Fault)
    ensures
        f.ip == ip,
        f.loc == loc,
        f.secondary == match popped_view(popped) {
            Option::Some(fr) => Option::Some(frame_pos(fr)),
            Option::None => Option::None::<usize>,
        },
        f.error matches Error::PreprocessorError(PreprocessorError::UnexpectedKeyword(m)) && m@
            == unexpected_text(word@, popped_view(popped)),
{
    let mut msg = word.to_owned();
    msg.append(" following ");
    let secondary: Option<usize> = match &popped {
        Option::Some(fr) => {
            msg.append(fr.word().as_str());
            Option::Some(fr.pos())
        },
        Option::None => {
            msg.append("nothing");
            Option::None
        },
    };
    Fault {
        error: Error::PreprocessorError(PreprocessorError::UnexpectedKeyword(msg)),
        ip,
        loc,
        secondary,
    }
}

/// Replace one instruction's payload in place, keeping location and index.
fn set_kind_at(v: &mut Vec<Instruction>, j: usize, k: InstructionKind)
    requires
        j < old(v)@.len(),
    ensures
        final(v)@ == set_kind(old(v)@, j as int, k),
{
    let loc = v[j].loc.clone();
    let ip = v[j].ip;
    let slot = vstd::std_specs::vec::vec_index_mut(v, j);
    *slot = Instruction { kind: k, loc, ip };
    proof {
        assert(v@ =~= set_kind(old(v)@, j as int, k));
    }
}

/// Patch every pending `elif` in the list to converge at `t`.
fn patch_pending_at(v: &mut Vec<Instruction>, pending: &Vec<usize>, t: usize)
    requires
        forall|k: int| 0 <= k < pending@.len() ==> pending@[k] < old(v)@.len(),
    ensures
        final(v)@ == patch_pending(old(v)@, pending@, t),
{
    let ghost v0 = v@;
    let n = v.len();
    proof {
        assert(v@ =~= patch_pending(v0, pending@.take(0), t));
    }
    let mut k: usize = 0;
    while k < pending.len()
        invariant
            k <= pending@.len(),
            v@.len() == v0.len(),
            v0.len() == n,
            forall|m: int| 0 <= m < pending@.len() ==> pending@[m] < v@.len(),
            v@ == patch_pending(v0, pending@.take(k as int), t),
        decreases pending@.len() - k,
    {
        let p = pending[k];
        set_kind_at(
            v,
            p,
            InstructionKind::Keyword(Keyword::Elif { self_ip: Some(p), converge_target: Some(t) }),
        );
        k = k + 1;
        proof {
            let pre = pending@.take(k - 1);
            let cur = pending@.take(k as int);
            assert(cur[k - 1] == p);
            assert forall|j: int| 0 <= j < v@.len() implies v@[j] == patch_pending(v0, cur, t)[j] by {
                if j == p as int {
                    assert(cur.contains(p));
                } else {
                    if cur.contains(j as usize) {
                        let m = choose|m: int| 0 <= m < cur.len() && cur[m] == j as usize;
                        assert(cur[m] == j as usize);
                        if m == k - 1 {
                            assert(cur[m] == p);
                            assert(j == p as int);
                        }
                        assert(pre[m] == cur[m]);
                        assert(pre.contains(j as usize));
                    }
                    if pre.contains(j as usize) {
                        let m = choose|m: int| 0 <= m < pre.len() && pre[m] == j as usize;
                        assert(cur[m] == pre[m]);
                        assert(cur.contains(j as usize));
                    }
                }
            }
            assert(v@ =~= patch_pending(v0, cur, t));
        }
    }
    proof {
        assert(pending@.take(pending@.len() as int) =~= pending@);
    }
}


/// All indices a frame stores lie below `i`.
pub open spec fn frame_in_bounds(f: FrameV, i: nat) -> bool {
    match f {
        FrameV::While { head } => head < i,
        FrameV::WhileDo { head, do_ip } => head < i && do_ip < i,
        FrameV::If { if_ip } => if_ip < i,
        FrameV::IfDo { if_ip, do_ip } => if_ip < i && do_ip < i,
        FrameV::Elif { elif_ip, pending } => elif_ip < i && forall|k: int|
            0 <= k < pending.len() ==> pending[k] < i,
        FrameV::ElifDo { elif_ip, do_ip, pending } => elif_ip < i && do_ip < i && forall|k: int|
            0 <= k < pending.len() ==> pending[k] < i,
        FrameV::Else { else_ip, pending } => else_ip < i && forall|k: int|
            0 <= k < pending.len() ==> pending[k] < i,
    }
}

/// All indices stored in the frame stack lie below `i`.
pub open spec fn frames_bounded(fs: Seq<FrameV>, i: nat) -> bool {
    forall|k: int| 0 <= k < fs.len() ==> frame_in_bounds(#[trigger] fs[k], i)
}

/// Assign absolute jump targets to every structured-control keyword of a
/// macro-free instruction array, in one forward pass over an explicit
/// stack of open-block frames. The result is exactly what the model
/// [`resolve_seq`] computes: on success the fully backpatched array, and
/// otherwise a located diagnostic for the first nesting violation or
/// still-open block.
pub fn jumps(instructions: &Vec<Instruction>) -> (r: Result<Vec<Instruction>, Fault>)
    ensures
        match r {
            Result::Ok(out) => {
                &&& resolve_seq(instructions@) matches Result::Ok(s) && out@ == s
                &&& out@.len() == instructions@.len()
                &&& slots_resolved(out@)
                &&& forall|j: int|
                    0 <= j < instructions@.len() ==> same_shape(instructions@[j], #[trigger] out@[j])
            },
            Result::Err(f) => resolve_seq(instructions@) matches Result::Err(e) && fault_for(
                f,
                e,
                instructions@,
            ),
        },
{
    let ghost s0 = instructions@;
    let mut insts = crate::instruction::clone_instructions(instructions);
    let mut frames: Vec<Frame> = Vec::new();
    let mut i: usize = 0;
    proof {
        assert(framesv(frames@) =~= Seq::<FrameV>::empty());
    }
    while i < insts.len()
        invariant
            s0 == instructions@,
            i <= insts@.len(),
            insts@.len() == s0.len(),
            forall|j: int| 0 <= j < s0.len() ==> (#[trigger] insts@[j]).loc == s0[j].loc,
            frames_bounded(framesv(frames@), i as nat),
            resolve_from(s0, 0, Seq::empty()) == resolve_from(insts@, i as nat, framesv(frames@)),
        decreases insts@.len() - i,
    {
        let ghost pre = insts@;
        let ghost fpre = framesv(frames@);
        let ghost im: nat = i as nat;
        let kw_opt: Option<Keyword> = match &insts[i].kind {
            InstructionKind::Keyword(k) => Some(*k),
            _ => None,
        };
        match kw_opt {
            Some(Keyword::While { .. }) => {
                set_kind_at(
                    &mut insts,
                    i,
                    InstructionKind::Keyword(Keyword::While { self_ip: Some(i) }),
                );
                frames.push(Frame::While { head: i });
                proof {
                    assert(framesv(frames@) =~= fpre.push(FrameV::While { head: i }));
                    assert(resolve_from(pre, im, fpre) == resolve_from(
                        insts@,
                        im + 1,
                        framesv(frames@),
                    ));
                }
            },
            Some(Keyword::If) => {
                frames.push(Frame::If { if_ip: i });
                proof {
                    assert(framesv(frames@) =~= fpre.push(FrameV::If { if_ip: i }));
                    assert(resolve_from(pre, im, fpre) == resolve_from(
                        insts@,
                        im + 1,
                        framesv(frames@),
                    ));
                }
            },
            Some(Keyword::Do { .. }) => {
                proof {
                    if frames@.len() > 0 {
                        assert(fpre.last() == frames@.last()@);
                        assert(frame_in_bounds(fpre[fpre.len() - 1], im));
                    }
                }
                match frames.pop() {
                    None => {
                        proof {
                            let e = ResolveErrV::Unexpected {
                                word: "do"@,
                                ip: i,
                                popped: None,
                            };
                            assert(resolve_from(pre, im, fpre)
                                == Result::<Seq<Instruction>, ResolveErrV>::Err(e));
                            assert(pre[i as int].loc == s0[i as int].loc);
                            assert(resolve_seq(s0)
                                == Result::<Seq<Instruction>, ResolveErrV>::Err(e));
                        }
                        let f = mk_unexpected("do", i, insts[i].loc.clone(), None);
                        return Result::Err(f);
                    },
                    Some(fr) => {
                        proof {
                            assert(framesv(frames@) =~= fpre.drop_last());
                        }
                        match fr {
                            Frame::While { head } => {
                                frames.push(Frame::WhileDo { head, do_ip: i });
                                proof {
                                    assert(framesv(frames@) =~= fpre.drop_last().push(
                                        FrameV::WhileDo { head, do_ip: i },
                                    ));
                                    assert(resolve_from(pre, im, fpre) == resolve_from(
                                        insts@,
                                        im + 1,
                                        framesv(frames@),
                                    ));
                                }
                            },
                            Frame::If { if_ip } => {
                                frames.push(Frame::IfDo { if_ip, do_ip: i });
                                proof {
                                    assert(framesv(frames@) =~= fpre.drop_last().push(
                                        FrameV::IfDo { if_ip, do_ip: i },
                                    ));
                                    assert(resolve_from(pre, im, fpre) == resolve_from(
                                        insts@,
                                        im + 1,
                                        framesv(frames@),
                                    ));
                                }
                            },
                            Frame::Elif { elif_ip, pending } => {
                                let ghost pv = pending@;
                                frames.push(Frame::ElifDo { elif_ip, do_ip: i, pending });
                                proof {
                                    assert(framesv(frames@) =~= fpre.drop_last().push(
                                        FrameV::ElifDo { elif_ip, do_ip: i, pending: pv },
                                    ));
                                    assert(resolve_from(pre, im, fpre) == resolve_from(
                                        insts@,
                                        im + 1,
                                        framesv(frames@),
                                    ));
                                }
                            },
                            other => {
                                proof {
                                    assert(other@ == fpre.last());
                                    let e = ResolveErrV::Unexpected {
                                        word: "do"@,
                                        ip: i,
                                        popped: Some(other@),
                                    };
                                    assert(resolve_from(pre, im, fpre)
                                        == Result::<Seq<Instruction>, ResolveErrV>::Err(e));
                                    assert(pre[i as int].loc == s0[i as int].loc);
                                }
                                let f = mk_unexpected("do", i, insts[i].loc.clone(), Some(other));
                                return Result::Err(f);
                            },
                        }
                    },
                }
            },
            Some(Keyword::Elif { .. }) => {
                proof {
                    if frames@.len() > 0 {
                        assert(fpre.last() == frames@.last()@);
                        assert(frame_in_bounds(fpre[fpre.len() - 1], im));
                    }
                }
                match frames.pop() {
                    None => {
                        proof {
                            let e = ResolveErrV::Unexpected {
                                word: "elif"@,
                                ip: i,
                                popped: None,
                            };
                            assert(resolve_from(pre, im, fpre)
                                == Result::<Seq<Instruction>, ResolveErrV>::Err(e));
                            assert(pre[i as int].loc == s0[i as int].loc);
                            assert(resolve_seq(s0)
                                == Result::<Seq<Instruction>, ResolveErrV>::Err(e));
                        }
                        let f = mk_unexpected("elif", i, insts[i].loc.clone(), None);
                        return Result::Err(f);
                    },
                    Some(fr) => {
                        proof {
                            assert(framesv(frames@) =~= fpre.drop_last());
                        }
                        match fr {
                            Frame::IfDo { do_ip, .. } => {
                                set_kind_at(
                                    &mut insts,
                                    do_ip,
                                    InstructionKind::Keyword(Keyword::Do { false_target: Some(i) }),
                                );
                                set_kind_at(
                                    &mut insts,
                                    i,
                                    InstructionKind::Keyword(
                                        Keyword::Elif { self_ip: Some(i), converge_target: None },
                                    ),
                                );
                                let mut p2: Vec<usize> = Vec::new();
                                p2.push(i);
                                let ghost p2v = p2@;
                                frames.push(Frame::Elif { elif_ip: i, pending: p2 });
                                proof {
                                    assert(p2v =~= seq![i]);
                                    assert(framesv(frames@) =~= fpre.drop_last().push(
                                        FrameV::Elif { elif_ip: i, pending: seq![i] },
                                    ));
                                    assert(resolve_from(pre, im, fpre) == resolve_from(
                                        insts@,
                                        im + 1,
                                        framesv(frames@),
                                    ));
                                }
                            },
                            Frame::ElifDo { do_ip, pending, .. } => {
                                let ghost pv = pending@;
                                set_kind_at(
                                    &mut insts,
                                    do_ip,
                                    InstructionKind::Keyword(Keyword::Do { false_target: Some(i) }),
                                );
                                set_kind_at(
                                    &mut insts,
                                    i,
                                    InstructionKind::Keyword(
                                        Keyword::Elif { self_ip: Some(i), converge_target: None },
                                    ),
                                );
                                let mut p2 = pending;
                                p2.push(i);
                                frames.push(Frame::Elif { elif_ip: i, pending: p2 });
                                proof {
                                    assert(framesv(frames@) =~= fpre.drop_last().push(
                                        FrameV::Elif { elif_ip: i, pending: pv.push(i) },
                                    ));
                                    assert(resolve_from(pre, im, fpre) == resolve_from(
                                        insts@,
                                        im + 1,
                                        framesv(frames@),
                                    ));
                                }
                            },
                            other => {
                                proof {
                                    assert(other@ == fpre.last());
                                    let e = ResolveErrV::Unexpected {
                                        word: "elif"@,
                                        ip: i,
                                        popped: Some(other@),
                                    };
                                    assert(resolve_from(pre, im, fpre)
                                        == Result::<Seq<Instruction>, ResolveErrV>::Err(e));
                                    assert(pre[i as int].loc == s0[i as int].loc);
                                }
                                let f = mk_unexpected("elif", i, insts[i].loc.clone(), Some(other));
                                return Result::Err(f);
                            },
                        }
                    },
                }
            },
            Some(Keyword::Else { .. }) => {
                proof {
                    if frames@.len() > 0 {
                        assert(fpre.last() == frames@.last()@);
                        assert(frame_in_bounds(fpre[fpre.len() - 1], im));
                    }
                }
                match frames.pop() {
                    None => {
                        proof {
                            let e = ResolveErrV::Unexpected {
                                word: "else"@,
                                ip: i,
                                popped: None,
                            };
                            assert(resolve_from(pre, im, fpre)
                                == Result::<Seq<Instruction>, ResolveErrV>::Err(e));
                            assert(pre[i as int].loc == s0[i as int].loc);
                            assert(resolve_seq(s0)
                                == Result::<Seq<Instruction>, ResolveErrV>::Err(e));
                        }
                        let f = mk_unexpected("else", i, insts[i].loc.clone(), None);
                        return Result::Err(f);
                    },
                    Some(fr) => {
                        proof {
                            assert(framesv(frames@) =~= fpre.drop_last());
                        }
                        match fr {
                            Frame::IfDo { do_ip, .. } => {
                                set_kind_at(
                                    &mut insts,
                                    do_ip,
                                    InstructionKind::Keyword(Keyword::Do { false_target: Some(i) }),
                                );
                                set_kind_at(
                                    &mut insts,
                                    i,
                                    InstructionKind::Keyword(
                                        Keyword::Else { self_ip: Some(i), converge_target: None },
                                    ),
                                );
                                let p2: Vec<usize> = Vec::new();
                                let ghost p2v = p2@;
                                frames.push(Frame::Else { else_ip: i, pending: p2 });
                                proof {
                                    assert(p2v =~= Seq::<usize>::empty());
                                    assert(framesv(frames@) =~= fpre.drop_last().push(
                                        FrameV::Else { else_ip: i, pending: Seq::empty() },
                                    ));
                                    assert(resolve_from(pre, im, fpre) == resolve_from(
                                        insts@,
                                        im + 1,
                                        framesv(frames@),
                                    ));
                                }
                            },
                            Frame::ElifDo { do_ip, pending, .. } => {
                                let ghost pv = pending@;
                                set_kind_at(
                                    &mut insts,
                                    do_ip,
                                    InstructionKind::Keyword(Keyword::Do { false_target: Some(i) }),
                                );
                                set_kind_at(
                                    &mut insts,
                                    i,
                                    InstructionKind::Keyword(
                                        Keyword::Else { self_ip: Some(i), converge_target: None },
                                    ),
                                );
                                frames.push(Frame::Else { else_ip: i, pending });
                                proof {
                                    assert(framesv(frames@) =~= fpre.drop_last().push(
                                        FrameV::Else { else_ip: i, pending: pv },
                                    ));
                                    assert(resolve_from(pre, im, fpre) == resolve_from(
                                        insts@,
                                        im + 1,
                                        framesv(frames@),
                                    ));
                                }
                            },
                            other => {
                                proof {
                                    assert(other@ == fpre.last());
                                    let e = ResolveErrV::Unexpected {
                                        word: "else"@,
                                        ip: i,
                                        popped: Some(other@),
                                    };
                                    assert(resolve_from(pre, im, fpre)
                                        == Result::<Seq<Instruction>, ResolveErrV>::Err(e));
                                    assert(pre[i as int].loc == s0[i as int].loc);
                                }
                                let f = mk_unexpected("else", i, insts[i].loc.clone(), Some(other));
                                return Result::Err(f);
                            },
                        }
                    },
                }
            },
            Some(Keyword::End { .. }) => {
                proof {
                    if frames@.len() > 0 {
                        assert(fpre.last() == frames@.last()@);
                        assert(frame_in_bounds(fpre[fpre.len() - 1], im));
                    }
                }
                match frames.pop() {
                    None => {
                        proof {
                            let e = ResolveErrV::Unexpected {
                                word: "end"@,
                                ip: i,
                                popped: None,
                            };
                            assert(resolve_from(pre, im, fpre)
                                == Result::<Seq<Instruction>, ResolveErrV>::Err(e));
                            assert(pre[i as int].loc == s0[i as int].loc);
                            assert(resolve_seq(s0)
                                == Result::<Seq<Instruction>, ResolveErrV>::Err(e));
                        }
                        let f = mk_unexpected("end", i, insts[i].loc.clone(), None);
                        return Result::Err(f);
                    },
                    Some(fr) => {
                        proof {
                            assert(framesv(frames@) =~= fpre.drop_last());
                        }
                        match fr {
                            Frame::WhileDo { head, do_ip } => {
                                set_kind_at(
                                    &mut insts,
                                    do_ip,
                                    InstructionKind::Keyword(Keyword::Do { false_target: Some(i) }),
                                );
                                set_kind_at(
                                    &mut insts,
                                    i,
                                    InstructionKind::Keyword(
                                        Keyword::End {
                                            self_ip: Some(i),
                                            loop_back_target: Some(head),
                                        },
                                    ),
                                );
                                proof {
                                    assert(resolve_from(pre, im, fpre) == resolve_from(
                                        insts@,
                                        im + 1,
                                        framesv(frames@),
                                    ));
                                }
                            },
                            Frame::IfDo { do_ip, .. } => {
                                set_kind_at(
                                    &mut insts,
                                    do_ip,
                                    InstructionKind::Keyword(Keyword::Do { false_target: Some(i) }),
                                );
                                set_kind_at(
                                    &mut insts,
                                    i,
                                    InstructionKind::Keyword(
                                        Keyword::End { self_ip: Some(i), loop_back_target: None },
                                    ),
                                );
                                proof {
                                    assert(resolve_from(pre, im, fpre) == resolve_from(
                                        insts@,
                                        im + 1,
                                        framesv(frames@),
                                    ));
                                }
                            },
                            Frame::ElifDo { do_ip, pending, .. } => {
                                let ghost pv = pending@;
                                set_kind_at(
                                    &mut insts,
                                    do_ip,
                                    InstructionKind::Keyword(Keyword::Do { false_target: Some(i) }),
                                );
                                patch_pending_at(&mut insts, &pending, i);
                                set_kind_at(
                                    &mut insts,
                                    i,
                                    InstructionKind::Keyword(
                                        Keyword::End { self_ip: Some(i), loop_back_target: None },
                                    ),
                                );
                                proof {
                                    assert(resolve_from(pre, im, fpre) == resolve_from(
                                        insts@,
                                        im + 1,
                                        framesv(frames@),
                                    ));
                                }
                            },
                            Frame::Else { else_ip, pending } => {
                                let ghost pv = pending@;
                                set_kind_at(
                                    &mut insts,
                                    else_ip,
                                    InstructionKind::Keyword(
                                        Keyword::Else {
                                            self_ip: Some(else_ip),
                                            converge_target: Some(i),
                                        },
                                    ),
                                );
                                patch_pending_at(&mut insts, &pending, i);
                                set_kind_at(
                                    &mut insts,
                                    i,
                                    InstructionKind::Keyword(
                                        Keyword::End { self_ip: Some(i), loop_back_target: None },
                                    ),
                                );
                                proof {
                                    assert(resolve_from(pre, im, fpre) == resolve_from(
                                        insts@,
                                        im + 1,
                                        framesv(frames@),
                                    ));
                                }
                            },
                            other => {
                                proof {
                                    assert(other@ == fpre.last());
                                    let e = ResolveErrV::Unexpected {
                                        word: "end"@,
                                        ip: i,
                                        popped: Some(other@),
                                    };
                                    assert(resolve_from(pre, im, fpre)
                                        == Result::<Seq<Instruction>, ResolveErrV>::Err(e));
                                    assert(pre[i as int].loc == s0[i as int].loc);
                                }
                                let f = mk_unexpected("end", i, insts[i].loc.clone(), Some(other));
                                return Result::Err(f);
                            },
                        }
                    },
                }
            },
            Some(Keyword::Macro) | Some(Keyword::Include) | None => {
                proof {
                    assert(resolve_from(pre, im, fpre) == resolve_from(
                        insts@,
                        im + 1,
                        framesv(frames@),
                    ));
                }
            },
        }
        i = i + 1;
        proof {
            assert forall|j: int| 0 <= j < s0.len() implies (#[trigger] insts@[j]).loc == s0[j].loc
            by {
                assert(pre[j].loc == s0[j].loc);
            }
        }
    }
    if frames.len() > 0 {
        let ghost fv = framesv(frames@);
        let ghost send = insts@;
        proof {
            assert(fv.last() == frames@.last()@);
            assert(frame_in_bounds(fv[fv.len() - 1], i as nat));
        }
        match frames.pop() {
            Some(top) => {
                proof {
                    assert(top@ == fv.last());
                    let e = ResolveErrV::Unclosed { top: fv.last() };
                    assert(resolve_from(send, i as nat, fv)
                        == Result::<Seq<Instruction>, ResolveErrV>::Err(e));
                    assert(send[frame_pos(top@) as int].loc == s0[frame_pos(top@) as int].loc);
                }
                let pos = top.pos();
                let msg = top.word();
                let loc = insts[pos].loc.clone();
                let f = Fault {
                    error: Error::PreprocessorError(PreprocessorError::UnclosedBlock(msg)),
                    ip: pos,
                    loc,
                    secondary: None,
                };
                return Result::Err(f);
            },
            None => {
                // the stack was checked to be non-empty
                proof {
                    assert(false);
                }
                vstd::pervasive::unreached()
            },
        }
    }
    proof {
        lemma_resolve_ok_resolved(s0, 0, Seq::empty());
    }
    Result::Ok(insts)
}


/// An instruction payload with its jump slots erased: what the resolver
/// reads, never writes.
pub open spec fn skel(k: InstructionKind) -> InstructionKind {
    match k {
        InstructionKind::Keyword(Keyword::While { .. }) => InstructionKind::Keyword(
            Keyword::While { self_ip: None },
        ),
        InstructionKind::Keyword(Keyword::Do { .. }) => InstructionKind::Keyword(
            Keyword::Do { false_target: None },
        ),
        InstructionKind::Keyword(Keyword::Elif { .. }) => InstructionKind::Keyword(
            Keyword::Elif { self_ip: None, converge_target: None },
        ),
        InstructionKind::Keyword(Keyword::Else { .. }) => InstructionKind::Keyword(
            Keyword::Else { self_ip: None, converge_target: None },
        ),
        InstructionKind::Keyword(Keyword::End { .. }) => InstructionKind::Keyword(
            Keyword::End { self_ip: None, loop_back_target: None },
        ),
        _ => k,
    }
}

/// Two instructions agree on everything except jump-slot contents.
pub open spec fn same_shape(a: Instruction, b: Instruction) -> bool {
    a.loc == b.loc && a.ip == b.ip && skel(a.kind) == skel(b.kind)
}

/// Every slot of the keyword at `j` is populated with a valid index: its
/// own-position slots hold `j` itself, every jump target is in range, and
/// an `end`'s backedge points at a `while` whose recorded position agrees.
pub open spec fn kind_resolved(s: Seq<Instruction>, j: int) -> bool {
    match s[j].kind {
        InstructionKind::Keyword(kw) => match kw {
            Keyword::While { self_ip } => self_ip == Some(j as usize),
            Keyword::Do { false_target } => false_target matches Some(t) && t < s.len(),
            Keyword::If => true,
            Keyword::Elif { self_ip, converge_target } => self_ip == Some(j as usize)
                && (converge_target matches Some(t) && t < s.len()),
            Keyword::Else { self_ip, converge_target } => self_ip == Some(j as usize)
                && (converge_target matches Some(t) && t < s.len()),
            Keyword::End { self_ip, loop_back_target } => self_ip == Some(j as usize) && match loop_back_target {
                Some(w) => w < s.len() && s[w as int].kind == InstructionKind::Keyword(
                    Keyword::While { self_ip: Some(w) },
                ),
                None => true,
            },
            Keyword::Macro | Keyword::Include => true,
        },
        _ => true,
    }
}

/// Every jump slot in the array is populated and valid.
pub open spec fn slots_resolved(s: Seq<Instruction>) -> bool {
    forall|j: int| 0 <= j < s.len() ==> #[trigger] kind_resolved(s, j)
}

/// The pending positions of a chain all hold `elif` keywords.
pub open spec fn pending_refs(s: Seq<Instruction>, pending: Seq<usize>) -> bool {
    forall|k: int|
        0 <= k < pending.len() ==> s[#[trigger] pending[k] as int].kind matches InstructionKind::Keyword(
            Keyword::Elif { .. },
        )
}

/// A frame's stored indices point at keywords of the right kind.
pub open spec fn frame_refs_ok(s: Seq<Instruction>, f: FrameV) -> bool {
    match f {
        FrameV::While { head } => s[head as int].kind == InstructionKind::Keyword(
            Keyword::While { self_ip: Some(head) },
        ),
        FrameV::WhileDo { head, do_ip } => s[head as int].kind == InstructionKind::Keyword(
            Keyword::While { self_ip: Some(head) },
        ) && s[do_ip as int].kind matches InstructionKind::Keyword(Keyword::Do { .. }),
        FrameV::If { .. } => true,
        FrameV::IfDo { do_ip, .. } => s[do_ip as int].kind matches InstructionKind::Keyword(
            Keyword::Do { .. },
        ),
        FrameV::Elif { pending, .. } => pending_refs(s, pending),
        FrameV::ElifDo { do_ip, pending, .. } => s[do_ip as int].kind matches InstructionKind::Keyword(
            Keyword::Do { .. },
        ) && pending_refs(s, pending),
        FrameV::Else { else_ip, pending } => s[else_ip as int].kind matches InstructionKind::Keyword(
            Keyword::Else { .. },
        ) && pending_refs(s, pending),
    }
}

/// Whether a frame still holds position `j` open (its slot not yet
/// patched).
pub open spec fn frame_opens(f: FrameV, j: usize) -> bool {
    match f {
        FrameV::While { .. } => false,
        FrameV::If { .. } => false,
        FrameV::WhileDo { do_ip, .. } => j == do_ip,
        FrameV::IfDo { do_ip, .. } => j == do_ip,
        FrameV::Elif { pending, .. } => pending.contains(j),
        FrameV::ElifDo { do_ip, pending, .. } => j == do_ip || pending.contains(j),
        FrameV::Else { else_ip, pending } => j == else_ip || pending.contains(j),
    }
}

/// Whether any open frame still holds position `j` open.
pub open spec fn open_at(frames: Seq<FrameV>, j: usize) -> bool {
    exists|k: int| 0 <= k < frames.len() && frame_opens(#[trigger] frames[k], j)
}

/// The resolver's invariant at position `i`: stored indices are below `i`
/// and point at the right keyword kinds, and every earlier position not
/// held open by a frame is already fully resolved.
pub open spec fn resolver_inv(s: Seq<Instruction>, i: nat, frames: Seq<FrameV>) -> bool {
    &&& frames_bounded(frames, i)
    &&& forall|k: int| 0 <= k < frames.len() ==> frame_refs_ok(s, #[trigger] frames[k])
    &&& forall|j: int|
        0 <= j < i && j < s.len() && !open_at(frames, j as usize) ==> #[trigger] kind_resolved(s, j)
}

proof fn lemma_open_push(frames: Seq<FrameV>, f: FrameV, j: usize)
    ensures
        open_at(frames.push(f), j) == (open_at(frames, j) || frame_opens(f, j)),
{
    let fs = frames.push(f);
    if open_at(fs, j) {
        let k = choose|k: int| 0 <= k < fs.len() && frame_opens(fs[k], j);
        if k < frames.len() {
            assert(frames[k] == fs[k]);
            assert(open_at(frames, j));
        } else {
            assert(fs[k] == f);
        }
    }
    if open_at(frames, j) {
        let k = choose|k: int| 0 <= k < frames.len() && frame_opens(frames[k], j);
        assert(fs[k] == frames[k]);
        assert(open_at(fs, j));
    }
    if frame_opens(f, j) {
        assert(fs[fs.len() - 1] == f);
        assert(open_at(fs, j));
    }
}

proof fn lemma_open_drop_last(frames: Seq<FrameV>, j: usize)
    requires
        frames.len() > 0,
    ensures
        open_at(frames, j) == (open_at(frames.drop_last(), j) || frame_opens(frames.last(), j)),
{
    let rest = frames.drop_last();
    if open_at(frames, j) {
        let k = choose|k: int| 0 <= k < frames.len() && frame_opens(frames[k], j);
        if k < rest.len() {
            assert(rest[k] == frames[k]);
            assert(open_at(rest, j));
        } else {
            assert(frames[k] == frames.last());
        }
    }
    if open_at(rest, j) {
        let k = choose|k: int| 0 <= k < rest.len() && frame_opens(rest[k], j);
        assert(frames[k] == rest[k]);
        assert(open_at(frames, j));
    }
    if frame_opens(frames.last(), j) {
        assert(open_at(frames, j));
    }
}

/// If resolution from an invariant-respecting state succeeds, the output
/// array has every jump slot populated and valid, and differs from the
/// input only in jump-slot contents.
pub proof fn lemma_resolve_ok_resolved(s: Seq<Instruction>, i: nat, frames: Seq<FrameV>)
    requires
        i <= s.len(),
        s.len() <= usize::MAX,
        resolver_inv(s, i, frames),
        resolve_from(s, i, frames) is Ok,
    ensures
        resolve_from(s, i, frames) matches Result::Ok(out) && {
            &&& out.len() == s.len()
            &&& slots_resolved(out)
            &&& forall|j: int| 0 <= j < s.len() ==> same_shape(s[j], #[trigger] out[j])
        },
    decreases s.len() - i,
{
    if i >= s.len() {
        assert(frames.len() == 0);
        assert forall|j: int| 0 <= j < s.len() implies #[trigger] kind_resolved(s, j) by {
            assert(!open_at(frames, j as usize));
        }
    } else {
        let ip = i as usize;
        match s[i as int].kind {
            InstructionKind::Keyword(kw) => match kw {
                Keyword::While { .. } => {
                    let s1 = set_kind(
                        s,
                        i as int,
                        InstructionKind::Keyword(Keyword::While { self_ip: Some(ip) }),
                    );
                    let f1 = frames.push(FrameV::While { head: ip });
                    assert forall|k: int| 0 <= k < f1.len() implies frame_refs_ok(
                        s1,
                        #[trigger] f1[k],
                    ) by {
                        if k < frames.len() {
                            assert(f1[k] == frames[k]);
                            assert(frame_refs_ok(s, frames[k]));
                            assert(frame_in_bounds(frames[k], i));
                        } else {
                            assert(f1[k] == FrameV::While { head: ip });
                        }
                    }
                    assert forall|j: int|
                        0 <= j < i + 1 && j < s1.len() && !open_at(f1, j as usize) implies #[trigger] kind_resolved(
                        s1,
                        j,
                    ) by {
                        lemma_open_push(frames, FrameV::While { head: ip }, j as usize);
                        if j == i {
                            assert(kind_resolved(s1, j));
                        } else {
                            assert(kind_resolved(s, j));
                            assert(s1[j] == s[j]);
                        }
                    }
                    lemma_resolve_ok_resolved(s1, i + 1, f1);
                },
                Keyword::If => {
                    let f1 = frames.push(FrameV::If { if_ip: ip });
                    assert forall|k: int| 0 <= k < f1.len() implies frame_refs_ok(
                        s,
                        #[trigger] f1[k],
                    ) by {
                        if k < frames.len() {
                            assert(f1[k] == frames[k]);
                        } else {
                            assert(f1[k] == FrameV::If { if_ip: ip });
                        }
                    }
                    assert forall|k: int| 0 <= k < f1.len() implies frame_in_bounds(
                        #[trigger] f1[k],
                        i + 1,
                    ) by {
                        if k < frames.len() {
                            assert(f1[k] == frames[k]);
                            assert(frame_in_bounds(frames[k], i));
                        } else {
                            assert(f1[k] == FrameV::If { if_ip: ip });
                        }
                    }
                    assert forall|j: int|
                        0 <= j < i + 1 && j < s.len() && !open_at(f1, j as usize) implies #[trigger] kind_resolved(
                        s,
                        j,
                    ) by {
                        lemma_open_push(frames, FrameV::If { if_ip: ip }, j as usize);
                        if j != i {
                            assert(kind_resolved(s, j));
                        }
                    }
                    lemma_resolve_ok_resolved(s, i + 1, f1);
                },
                Keyword::Do { .. } => {
                    let f = frames.last();
                    let rest = frames.drop_last();
                    assert(frames.len() > 0);
                    assert(frame_refs_ok(s, f)) by {
                        assert(frames[frames.len() - 1] == f);
                    }
                    assert(frame_in_bounds(f, i)) by {
                        assert(frames[frames.len() - 1] == f);
                    }
                    let newf = match f {
                        FrameV::While { head } => FrameV::WhileDo { head, do_ip: ip },
                        FrameV::If { if_ip } => FrameV::IfDo { if_ip, do_ip: ip },
                        FrameV::Elif { elif_ip, pending } => FrameV::ElifDo {
                            elif_ip,
                            do_ip: ip,
                            pending,
                        },
                        _ => f,
                    };
                    let f1 = rest.push(newf);
                    assert forall|k: int| 0 <= k < f1.len() implies frame_refs_ok(
                        s,
                        #[trigger] f1[k],
                    ) && frame_in_bounds(f1[k], i + 1) by {
                        if k < rest.len() {
                            assert(f1[k] == frames[k]);
                            assert(frame_refs_ok(s, frames[k]));
                            assert(frame_in_bounds(frames[k], i));
                        } else {
                            assert(f1[k] == newf);
                        }
                    }
                    assert forall|j: int|
                        0 <= j < i + 1 && j < s.len() && !open_at(f1, j as usize) implies #[trigger] kind_resolved(
                        s,
                        j,
                    ) by {
                        lemma_open_push(rest, newf, j as usize);
                        lemma_open_drop_last(frames, j as usize);
                        if j == i {
                            assert(frame_opens(newf, ip));
                            assert(false);
                        } else {
                            assert(!open_at(frames, j as usize));
                            assert(kind_resolved(s, j));
                        }
                    }
                    lemma_resolve_ok_resolved(s, i + 1, f1);
                },
                Keyword::Elif { .. } => {
                    let f = frames.last();
                    let rest = frames.drop_last();
                    assert(frame_refs_ok(s, f) && frame_in_bounds(f, i)) by {
                        assert(frames[frames.len() - 1] == f);
                    }
                    let (do_ip, newpend) = match f {
                        FrameV::IfDo { do_ip, .. } => (do_ip, seq![ip]),
                        FrameV::ElifDo { do_ip, pending, .. } => (do_ip, pending.push(ip)),
                        _ => (0usize, Seq::<usize>::empty()),
                    };
                    let s1 = set_kind(
                        patch_do(s, do_ip, ip),
                        i as int,
                        InstructionKind::Keyword(
                            Keyword::Elif { self_ip: Some(ip), converge_target: None },
                        ),
                    );
                    let newf = FrameV::Elif { elif_ip: ip, pending: newpend };
                    let f1 = rest.push(newf);
                    assert(s1.len() == s.len());
                    assert forall|j: int| 0 <= j < s.len() implies same_shape(
                        s[j],
                        #[trigger] s1[j],
                    ) by {}
                    assert forall|k: int| 0 <= k < f1.len() implies frame_refs_ok(
                        s1,
                        #[trigger] f1[k],
                    ) && frame_in_bounds(f1[k], i + 1) by {
                        if k < rest.len() {
                            assert(f1[k] == frames[k]);
                            assert(frame_refs_ok(s, frames[k]));
                            assert(frame_in_bounds(frames[k], i));
                            match frames[k] {
                                FrameV::While { head } => {
                                    assert(s1[head as int] == s[head as int]);
                                },
                                FrameV::WhileDo { head, do_ip: d2 } => {
                                    assert(s1[head as int] == s[head as int]);
                                    assert(s1[d2 as int].kind matches InstructionKind::Keyword(
                                        Keyword::Do { .. },
                                    ));
                                },
                                FrameV::Elif { pending, .. } => {
                                    assert forall|m: int|
                                        0 <= m < pending.len() implies s1[#[trigger] pending[m] as int].kind matches InstructionKind::Keyword(
                                        Keyword::Elif { .. },
                                    ) by {
                                        assert(s[pending[m] as int].kind matches InstructionKind::Keyword(
                                            Keyword::Elif { .. },
                                        ));
                                    }
                                },
                                FrameV::ElifDo { do_ip: d2, pending, .. } => {
                                    assert forall|m: int|
                                        0 <= m < pending.len() implies s1[#[trigger] pending[m] as int].kind matches InstructionKind::Keyword(
                                        Keyword::Elif { .. },
                                    ) by {
                                        assert(s[pending[m] as int].kind matches InstructionKind::Keyword(
                                            Keyword::Elif { .. },
                                        ));
                                    }
                                },
                                FrameV::Else { else_ip, pending } => {
                                    assert forall|m: int|
                                        0 <= m < pending.len() implies s1[#[trigger] pending[m] as int].kind matches InstructionKind::Keyword(
                                        Keyword::Elif { .. },
                                    ) by {
                                        assert(s[pending[m] as int].kind matches InstructionKind::Keyword(
                                            Keyword::Elif { .. },
                                        ));
                                    }
                                },
                                _ => {},
                            }
                        } else {
                            assert(f1[k] == newf);
                            assert(s1[i as int].kind matches InstructionKind::Keyword(
                                Keyword::Elif { .. },
                            ));
                            assert forall|m: int|
                                0 <= m < newpend.len() implies s1[#[trigger] newpend[m] as int].kind matches InstructionKind::Keyword(
                                Keyword::Elif { .. },
                            ) by {
                                if newpend[m] == ip {
                                } else {
                                    match f {
                                        FrameV::ElifDo { pending, .. } => {
                                            assert(newpend[m] == pending[m]);
                                            assert(s[pending[m] as int].kind matches InstructionKind::Keyword(
                                                Keyword::Elif { .. },
                                            ));
                                        },
                                        _ => {},
                                    }
                                }
                            }
                        }
                    }
                    assert forall|j: int|
                        0 <= j < i + 1 && j < s1.len() && !open_at(f1, j as usize) implies #[trigger] kind_resolved(
                        s1,
                        j,
                    ) by {
                        lemma_open_push(rest, newf, j as usize);
                        lemma_open_drop_last(frames, j as usize);
                        if j == i {
                            assert(newpend.contains(ip)) by {
                                assert(newpend[newpend.len() - 1] == ip);
                            }
                            assert(frame_opens(newf, ip));
                            assert(false);
                        } else if j == do_ip {
                            assert(kind_resolved(s1, j));
                        } else {
                            assert(!frame_opens(f, j as usize) ==> !open_at(frames, j as usize));
                            if frame_opens(f, j as usize) {
                                match f {
                                    FrameV::ElifDo { pending, .. } => {
                                        assert(pending.contains(j as usize));
                                        assert(newpend.contains(j as usize)) by {
                                            let m = choose|m: int|
                                                0 <= m < pending.len() && pending[m] == j as usize;
                                            assert(newpend[m] == j as usize);
                                        }
                                        assert(frame_opens(newf, j as usize));
                                        assert(false);
                                    },
                                    _ => {
                                        assert(false);
                                    },
                                }
                            }
                            assert(kind_resolved(s, j));
                            assert(s1[j] == s[j]);
                            match s[j].kind {
                                InstructionKind::Keyword(Keyword::End { loop_back_target, .. }) => {
                                    match loop_back_target {
                                        Some(w) => {
                                            assert(s1[w as int] == s[w as int]);
                                        },
                                        None => {},
                                    }
                                },
                                _ => {},
                            }
                        }
                    }
                    lemma_resolve_ok_resolved(s1, i + 1, f1);
                    assert forall|j: int| 0 <= j < s.len() implies same_shape(
                        s[j],
                        #[trigger] resolve_from(s, i, frames)->Ok_0[j],
                    ) by {
                        assert(same_shape(s1[j], resolve_from(s1, i + 1, f1)->Ok_0[j]));
                    }
                },
                Keyword::Else { .. } => {
                    let f = frames.last();
                    let rest = frames.drop_last();
                    assert(frame_refs_ok(s, f) && frame_in_bounds(f, i)) by {
                        assert(frames[frames.len() - 1] == f);
                    }
                    let (do_ip, newpend) = match f {
                        FrameV::IfDo { do_ip, .. } => (do_ip, Seq::<usize>::empty()),
                        FrameV::ElifDo { do_ip, pending, .. } => (do_ip, pending),
                        _ => (0usize, Seq::<usize>::empty()),
                    };
                    let s1 = set_kind(
                        patch_do(s, do_ip, ip),
                        i as int,
                        InstructionKind::Keyword(
                            Keyword::Else { self_ip: Some(ip), converge_target: None },
                        ),
                    );
                    let newf = FrameV::Else { else_ip: ip, pending: newpend };
                    let f1 = rest.push(newf);
                    assert(s1.len() == s.len());
                    assert forall|j: int| 0 <= j < s.len() implies same_shape(
                        s[j],
                        #[trigger] s1[j],
                    ) by {}
                    assert forall|k: int| 0 <= k < f1.len() implies frame_refs_ok(
                        s1,
                        #[trigger] f1[k],
                    ) && frame_in_bounds(f1[k], i + 1) by {
                        if k < rest.len() {
                            assert(f1[k] == frames[k]);
                            assert(frame_refs_ok(s, frames[k]));
                            assert(frame_in_bounds(frames[k], i));
                            match frames[k] {
                                FrameV::While { head } => {
                                    assert(s1[head as int] == s[head as int]);
                                },
                                FrameV::WhileDo { head, do_ip: d2 } => {
                                    assert(s1[head as int] == s[head as int]);
                                    assert(s1[d2 as int].kind matches InstructionKind::Keyword(
                                        Keyword::Do { .. },
                                    ));
                                },
                                FrameV::Elif { pending, .. } => {
                                    assert forall|m: int|
                                        0 <= m < pending.len() implies s1[#[trigger] pending[m] as int].kind matches InstructionKind::Keyword(
                                        Keyword::Elif { .. },
                                    ) by {
                                        assert(s[pending[m] as int].kind matches InstructionKind::Keyword(
                                            Keyword::Elif { .. },
                                        ));
                                    }
                                },
                                FrameV::ElifDo { do_ip: d2, pending, .. } => {
                                    assert forall|m: int|
                                        0 <= m < pending.len() implies s1[#[trigger] pending[m] as int].kind matches InstructionKind::Keyword(
                                        Keyword::Elif { .. },
                                    ) by {
                                        assert(s[pending[m] as int].kind matches InstructionKind::Keyword(
                                            Keyword::Elif { .. },
                                        ));
                                    }
                                },
                                FrameV::Else { else_ip, pending } => {
                                    assert forall|m: int|
                                        0 <= m < pending.len() implies s1[#[trigger] pending[m] as int].kind matches InstructionKind::Keyword(
                                        Keyword::Elif { .. },
                                    ) by {
                                        assert(s[pending[m] as int].kind matches InstructionKind::Keyword(
                                            Keyword::Elif { .. },
                                        ));
                                    }
                                },
                                _ => {},
                            }
                        } else {
                            assert(f1[k] == newf);
                            assert(s1[i as int].kind matches InstructionKind::Keyword(
                                Keyword::Else { .. },
                            ));
                            assert forall|m: int|
                                0 <= m < newpend.len() implies s1[#[trigger] newpend[m] as int].kind matches InstructionKind::Keyword(
                                Keyword::Elif { .. },
                            ) by {
                                match f {
                                    FrameV::ElifDo { pending, .. } => {
                                        assert(s[pending[m] as int].kind matches InstructionKind::Keyword(
                                            Keyword::Elif { .. },
                                        ));
                                    },
                                    _ => {},
                                }
                            }
                        }
                    }
                    assert forall|j: int|
                        0 <= j < i + 1 && j < s1.len() && !open_at(f1, j as usize) implies #[trigger] kind_resolved(
                        s1,
                        j,
                    ) by {
                        lemma_open_push(rest, newf, j as usize);
                        lemma_open_drop_last(frames, j as usize);
                        if j == i {
                            assert(frame_opens(newf, ip));
                            assert(false);
                        } else if j == do_ip {
                            assert(kind_resolved(s1, j));
                        } else {
                            if frame_opens(f, j as usize) {
                                match f {
                                    FrameV::ElifDo { pending, .. } => {
                                        assert(frame_opens(newf, j as usize));
                                        assert(false);
                                    },
                                    _ => {
                                        assert(false);
                                    },
                                }
                            }
                            assert(!open_at(frames, j as usize));
                            assert(kind_resolved(s, j));
                            assert(s1[j] == s[j]);
                            match s[j].kind {
                                InstructionKind::Keyword(Keyword::End { loop_back_target, .. }) => {
                                    match loop_back_target {
                                        Some(w) => {
                                            assert(s1[w as int] == s[w as int]);
                                        },
                                        None => {},
                                    }
                                },
                                _ => {},
                            }
                        }
                    }
                    lemma_resolve_ok_resolved(s1, i + 1, f1);
                    assert forall|j: int| 0 <= j < s.len() implies same_shape(
                        s[j],
                        #[trigger] resolve_from(s, i, frames)->Ok_0[j],
                    ) by {
                        assert(same_shape(s1[j], resolve_from(s1, i + 1, f1)->Ok_0[j]));
                    }
                },
                Keyword::End { .. } => {
                    lemma_resolve_ok_resolved_end(s, i, frames);
                },
                Keyword::Macro | Keyword::Include => {
                    assert forall|j: int|
                        0 <= j < i + 1 && j < s.len() && !open_at(frames, j as usize) implies #[trigger] kind_resolved(
                        s,
                        j,
                    ) by {
                        if j != i {
                            assert(kind_resolved(s, j));
                        }
                    }
                    lemma_resolve_ok_resolved(s, i + 1, frames);
                },
            },
            _ => {
                assert forall|j: int|
                    0 <= j < i + 1 && j < s.len() && !open_at(frames, j as usize) implies #[trigger] kind_resolved(
                    s,
                    j,
                ) by {
                    if j != i {
                        assert(kind_resolved(s, j));
                    }
                }
                lemma_resolve_ok_resolved(s, i + 1, frames);
            },
        }
    }
}

/// The `end` case of the induction behind [`lemma_resolve_ok_resolved`].
proof fn lemma_resolve_ok_resolved_end(s: Seq<Instruction>, i: nat, frames: Seq<FrameV>)
    requires
        i < s.len(),
        s.len() <= usize::MAX,
        resolver_inv(s, i, frames),
        resolve_from(s, i, frames) is Ok,
        s[i as int].kind matches InstructionKind::Keyword(Keyword::End { .. }),
    ensures
        resolve_from(s, i, frames) matches Result::Ok(out) && {
            &&& out.len() == s.len()
            &&& slots_resolved(out)
            &&& forall|j: int| 0 <= j < s.len() ==> same_shape(s[j], #[trigger] out[j])
        },
    decreases s.len() - i, 0nat,
{
    let ip = i as usize;
    let f = frames.last();
    let rest = frames.drop_last();
    assert(frames.len() > 0);
    assert(frame_refs_ok(s, f) && frame_in_bounds(f, i)) by {
        assert(frames[frames.len() - 1] == f);
    }
    // the array after this step, by frame kind
    let (s1, pend) = match f {
        FrameV::WhileDo { head, do_ip } => (
            set_kind(
                patch_do(s, do_ip, ip),
                i as int,
                InstructionKind::Keyword(
                    Keyword::End { self_ip: Some(ip), loop_back_target: Some(head) },
                ),
            ),
            Seq::<usize>::empty(),
        ),
        FrameV::IfDo { do_ip, .. } => (
            set_kind(
                patch_do(s, do_ip, ip),
                i as int,
                InstructionKind::Keyword(Keyword::End { self_ip: Some(ip), loop_back_target: None }),
            ),
            Seq::<usize>::empty(),
        ),
        FrameV::ElifDo { do_ip, pending, .. } => (
            set_kind(
                patch_pending(patch_do(s, do_ip, ip), pending, ip),
                i as int,
                InstructionKind::Keyword(Keyword::End { self_ip: Some(ip), loop_back_target: None }),
            ),
            pending,
        ),
        FrameV::Else { else_ip, pending } => (
            set_kind(
                patch_pending(patch_else(s, else_ip, ip), pending, ip),
                i as int,
                InstructionKind::Keyword(Keyword::End { self_ip: Some(ip), loop_back_target: None }),
            ),
            pending,
        ),
        _ => (s, Seq::<usize>::empty()),
    };
    assert(s1.len() == s.len());
    // pointwise description of s1
    assert forall|j: int| 0 <= j < s.len() implies same_shape(s[j], #[trigger] s1[j]) && (s1[j]
        == s[j] || j == i || frame_opens(f, j as usize)) by {
        if pend.contains(j as usize) {
            let m = choose|m: int| 0 <= m < pend.len() && pend[m] == j as usize;
            assert(s[pend[m] as int].kind matches InstructionKind::Keyword(Keyword::Elif { .. }));
        }
    }
    let f1 = rest;
    assert forall|k: int| 0 <= k < f1.len() implies frame_refs_ok(s1, #[trigger] f1[k])
        && frame_in_bounds(f1[k], i + 1) by {
        assert(f1[k] == frames[k]);
        assert(frame_refs_ok(s, frames[k]));
        assert(frame_in_bounds(frames[k], i));
        match frames[k] {
            FrameV::While { head } => {
                assert(s1[head as int] == s[head as int]);
            },
            FrameV::WhileDo { head, do_ip: d2 } => {
                assert(s1[head as int] == s[head as int]);
                assert(s1[d2 as int].kind matches InstructionKind::Keyword(Keyword::Do { .. }));
            },
            FrameV::IfDo { do_ip: d2, .. } => {
                assert(s1[d2 as int].kind matches InstructionKind::Keyword(Keyword::Do { .. }));
            },
            FrameV::Elif { pending, .. } => {
                assert forall|m: int|
                    0 <= m < pending.len() implies s1[#[trigger] pending[m] as int].kind matches InstructionKind::Keyword(
                    Keyword::Elif { .. },
                ) by {
                    assert(s[pending[m] as int].kind matches InstructionKind::Keyword(
                        Keyword::Elif { .. },
                    ));
                }
            },
            FrameV::ElifDo { do_ip: d2, pending, .. } => {
                assert(s1[d2 as int].kind matches InstructionKind::Keyword(Keyword::Do { .. }));
                assert forall|m: int|
                    0 <= m < pending.len() implies s1[#[trigger] pending[m] as int].kind matches InstructionKind::Keyword(
                    Keyword::Elif { .. },
                ) by {
                    assert(s[pending[m] as int].kind matches InstructionKind::Keyword(
                        Keyword::Elif { .. },
                    ));
                }
            },
            FrameV::Else { else_ip: e2, pending } => {
                assert(s1[e2 as int].kind matches InstructionKind::Keyword(Keyword::Else { .. }));
                assert forall|m: int|
                    0 <= m < pending.len() implies s1[#[trigger] pending[m] as int].kind matches InstructionKind::Keyword(
                    Keyword::Elif { .. },
                ) by {
                    assert(s[pending[m] as int].kind matches InstructionKind::Keyword(
                        Keyword::Elif { .. },
                    ));
                }
            },
            _ => {},
        }
    }
    assert forall|j: int|
        0 <= j < i + 1 && j < s1.len() && !open_at(f1, j as usize) implies #[trigger] kind_resolved(
        s1,
        j,
    ) by {
        lemma_open_drop_last(frames, j as usize);
        if j == i {
            // the end's own slots were just written; a loop backedge points
            // at the while recorded in the frame
            match f {
                FrameV::WhileDo { head, do_ip } => {
                    assert(s[head as int].kind == InstructionKind::Keyword(
                        Keyword::While { self_ip: Some(head) },
                    ));
                    assert(s1[head as int] == s[head as int]);
                    assert(kind_resolved(s1, j));
                },
                _ => {
                    assert(kind_resolved(s1, j));
                },
            }
        } else if frame_opens(f, j as usize) {
            // a slot this frame held open was patched at this step
            match f {
                FrameV::WhileDo { do_ip, .. } => {
                    assert(kind_resolved(s1, j));
                },
                FrameV::IfDo { do_ip, .. } => {
                    assert(kind_resolved(s1, j));
                },
                FrameV::ElifDo { do_ip, pending, .. } => {
                    if j == do_ip && !pending.contains(j as usize) {
                        assert(kind_resolved(s1, j));
                    } else {
                        assert(pend.contains(j as usize) || j == do_ip);
                        assert(kind_resolved(s1, j));
                    }
                },
                FrameV::Else { else_ip, pending } => {
                    assert(kind_resolved(s1, j));
                },
                _ => {},
            }
        } else {
            assert(!open_at(frames, j as usize));
            assert(kind_resolved(s, j));
            assert(s1[j] == s[j]);
            match s[j].kind {
                InstructionKind::Keyword(Keyword::End { loop_back_target, .. }) => {
                    match loop_back_target {
                        Some(w) => {
                            assert(s[w as int].kind == InstructionKind::Keyword(
                                Keyword::While { self_ip: Some(w) },
                            ));
                            assert(s1[w as int] == s[w as int]);
                        },
                        None => {},
                    }
                },
                _ => {},
            }
        }
    }
    lemma_resolve_ok_resolved(s1, i + 1, f1);
    assert forall|j: int| 0 <= j < s.len() implies same_shape(
        s[j],
        #[trigger] resolve_from(s, i, frames)->Ok_0[j],
    ) by {
        assert(same_shape(s1[j], resolve_from(s1, i + 1, f1)->Ok_0[j]));
    }
}


/// Two runs over arrays of the same shape (equal up to jump-slot
/// contents) make the same decisions and the same writes: where either
/// run wrote, both wrote the same instruction; where neither wrote, each
/// output keeps its own input.
#[verifier::rlimit(60)]
proof fn lemma_resolve_twin(s: Seq<Instruction>, t: Seq<Instruction>, i: nat, frames: Seq<FrameV>)
    requires
        i <= s.len(),
        s.len() <= usize::MAX,
        t.len() == s.len(),
        forall|j: int| 0 <= j < s.len() ==> same_shape(s[j], #[trigger] t[j]),
        resolve_from(s, i, frames) is Ok,
    ensures
        resolve_from(t, i, frames) is Ok,
        resolve_from(t, i, frames)->Ok_0.len() == s.len(),
        forall|j: int|
            0 <= j < s.len() ==> {
                ||| resolve_from(t, i, frames)->Ok_0[j] == resolve_from(s, i, frames)->Ok_0[j]
                ||| (resolve_from(s, i, frames)->Ok_0[j] == s[j] && resolve_from(
                    t,
                    i,
                    frames,
                )->Ok_0[j] == t[j])
            },
    decreases s.len() - i,
{
    if i >= s.len() {
    } else {
        let ip = i as usize;
        assert(same_shape(s[i as int], t[i as int]));
        match s[i as int].kind {
            InstructionKind::Keyword(kw) => match kw {
                Keyword::While { .. } => {
                    let k1 = InstructionKind::Keyword(Keyword::While { self_ip: Some(ip) });
                    let s1 = set_kind(s, i as int, k1);
                    let t1 = set_kind(t, i as int, k1);
                    let f1 = frames.push(FrameV::While { head: ip });
                    assert forall|j: int| 0 <= j < s.len() implies same_shape(
                        s1[j],
                        #[trigger] t1[j],
                    ) by {}
                    lemma_resolve_twin(s1, t1, i + 1, f1);
                    assert(t[i as int].kind matches InstructionKind::Keyword(
                        Keyword::While { .. },
                    ));
                    assert(resolve_from(s, i, frames) == resolve_from(s1, i + 1, f1));
                    assert(resolve_from(t, i, frames) == resolve_from(t1, i + 1, f1));
                    assert forall|j: int| 0 <= j < s.len() implies {
                        ||| resolve_from(t, i, frames)->Ok_0[j] == resolve_from(
                            s,
                            i,
                            frames,
                        )->Ok_0[j]
                        ||| (resolve_from(s, i, frames)->Ok_0[j] == s[j] && resolve_from(
                            t,
                            i,
                            frames,
                        )->Ok_0[j] == t[j])
                    } by {
                        let os1 = resolve_from(s1, i + 1, f1)->Ok_0;
                        let ot1 = resolve_from(t1, i + 1, f1)->Ok_0;
                        assert(ot1[j] == os1[j] || (os1[j] == s1[j] && ot1[j] == t1[j]));
                        if j == i {
                            assert(s1[j] == t1[j]);
                        }
                    }
                },
                Keyword::If => {
                    lemma_resolve_twin(s, t, i + 1, frames.push(FrameV::If { if_ip: ip }));
                },
                Keyword::Do { .. } => {
                    let f = frames.last();
                    let rest = frames.drop_last();
                    match f {
                        FrameV::While { head } => {
                            lemma_resolve_twin(
                                s,
                                t,
                                i + 1,
                                rest.push(FrameV::WhileDo { head, do_ip: ip }),
                            );
                        },
                        FrameV::If { if_ip } => {
                            lemma_resolve_twin(
                                s,
                                t,
                                i + 1,
                                rest.push(FrameV::IfDo { if_ip, do_ip: ip }),
                            );
                        },
                        FrameV::Elif { elif_ip, pending } => {
                            lemma_resolve_twin(
                                s,
                                t,
                                i + 1,
                                rest.push(FrameV::ElifDo { elif_ip, do_ip: ip, pending }),
                            );
                        },
                        _ => {},
                    }
                },
                Keyword::Elif { .. } => {
                    let f = frames.last();
                    let rest = frames.drop_last();
                    let (do_ip, newpend) = match f {
                        FrameV::IfDo { do_ip, .. } => (do_ip, seq![ip]),
                        FrameV::ElifDo { do_ip, pending, .. } => (do_ip, pending.push(ip)),
                        _ => (0usize, Seq::<usize>::empty()),
                    };
                    match f {
                        FrameV::IfDo { .. } | FrameV::ElifDo { .. } => {
                            let k1 = InstructionKind::Keyword(
                                Keyword::Elif { self_ip: Some(ip), converge_target: None },
                            );
                            let s1 = set_kind(patch_do(s, do_ip, ip), i as int, k1);
                            let t1 = set_kind(patch_do(t, do_ip, ip), i as int, k1);
                            let f1 = rest.push(FrameV::Elif { elif_ip: ip, pending: newpend });
                            assert forall|j: int| 0 <= j < s.len() implies same_shape(
                                s1[j],
                                #[trigger] t1[j],
                            ) by {}
                            lemma_resolve_twin(s1, t1, i + 1, f1);
                            assert forall|j: int| 0 <= j < s.len() implies {
                                ||| resolve_from(t, i, frames)->Ok_0[j] == resolve_from(
                                    s,
                                    i,
                                    frames,
                                )->Ok_0[j]
                                ||| (resolve_from(s, i, frames)->Ok_0[j] == s[j] && resolve_from(
                                    t,
                                    i,
                                    frames,
                                )->Ok_0[j] == t[j])
                            } by {
                                let os1 = resolve_from(s1, i + 1, f1)->Ok_0;
                                let ot1 = resolve_from(t1, i + 1, f1)->Ok_0;
                                assert(ot1[j] == os1[j] || (os1[j] == s1[j] && ot1[j] == t1[j]));
                                if j == i || j == do_ip {
                                    assert(s1[j] == t1[j]);
                                }
                            }
                        },
                        _ => {},
                    }
                },
                Keyword::Else { .. } => {
                    let f = frames.last();
                    let rest = frames.drop_last();
                    let (do_ip, newpend) = match f {
                        FrameV::IfDo { do_ip, .. } => (do_ip, Seq::<usize>::empty()),
                        FrameV::ElifDo { do_ip, pending, .. } => (do_ip, pending),
                        _ => (0usize, Seq::<usize>::empty()),
                    };
                    match f {
                        FrameV::IfDo { .. } | FrameV::ElifDo { .. } => {
                            let k1 = InstructionKind::Keyword(
                                Keyword::Else { self_ip: Some(ip), converge_target: None },
                            );
                            let s1 = set_kind(patch_do(s, do_ip, ip), i as int, k1);
                            let t1 = set_kind(patch_do(t, do_ip, ip), i as int, k1);
                            let f1 = rest.push(FrameV::Else { else_ip: ip, pending: newpend });
                            assert forall|j: int| 0 <= j < s.len() implies same_shape(
                                s1[j],
                                #[trigger] t1[j],
                            ) by {}
                            lemma_resolve_twin(s1, t1, i + 1, f1);
                            assert forall|j: int| 0 <= j < s.len() implies {
                                ||| resolve_from(t, i, frames)->Ok_0[j] == resolve_from(
                                    s,
                                    i,
                                    frames,
                                )->Ok_0[j]
                                ||| (resolve_from(s, i, frames)->Ok_0[j] == s[j] && resolve_from(
                                    t,
                                    i,
                                    frames,
                                )->Ok_0[j] == t[j])
                            } by {
                                let os1 = resolve_from(s1, i + 1, f1)->Ok_0;
                                let ot1 = resolve_from(t1, i + 1, f1)->Ok_0;
                                assert(ot1[j] == os1[j] || (os1[j] == s1[j] && ot1[j] == t1[j]));
                                if j == i || j == do_ip {
                                    assert(s1[j] == t1[j]);
                                }
                            }
                        },
                        _ => {},
                    }
                },
                Keyword::End { .. } => {
                    let f = frames.last();
                    let rest = frames.drop_last();
                    match f {
                        FrameV::WhileDo { head, do_ip } => {
                            let k1 = InstructionKind::Keyword(
                                Keyword::End { self_ip: Some(ip), loop_back_target: Some(head) },
                            );
                            let s1 = set_kind(patch_do(s, do_ip, ip), i as int, k1);
                            let t1 = set_kind(patch_do(t, do_ip, ip), i as int, k1);
                            assert forall|j: int| 0 <= j < s.len() implies same_shape(
                                s1[j],
                                #[trigger] t1[j],
                            ) by {}
                            lemma_resolve_twin(s1, t1, i + 1, rest);
                            assert forall|j: int| 0 <= j < s.len() implies {
                                ||| resolve_from(t, i, frames)->Ok_0[j] == resolve_from(
                                    s,
                                    i,
                                    frames,
                                )->Ok_0[j]
                                ||| (resolve_from(s, i, frames)->Ok_0[j] == s[j] && resolve_from(
                                    t,
                                    i,
                                    frames,
                                )->Ok_0[j] == t[j])
                            } by {
                                let os1 = resolve_from(s1, i + 1, rest)->Ok_0;
                                let ot1 = resolve_from(t1, i + 1, rest)->Ok_0;
                                assert(ot1[j] == os1[j] || (os1[j] == s1[j] && ot1[j] == t1[j]));
                                if j == i || j == do_ip {
                                    assert(s1[j] == t1[j]);
                                }
                            }
                        },
                        FrameV::IfDo { do_ip, .. } => {
                            let k1 = InstructionKind::Keyword(
                                Keyword::End { self_ip: Some(ip), loop_back_target: None },
                            );
                            let s1 = set_kind(patch_do(s, do_ip, ip), i as int, k1);
                            let t1 = set_kind(patch_do(t, do_ip, ip), i as int, k1);
                            assert forall|j: int| 0 <= j < s.len() implies same_shape(
                                s1[j],
                                #[trigger] t1[j],
                            ) by {}
                            lemma_resolve_twin(s1, t1, i + 1, rest);
                            assert forall|j: int| 0 <= j < s.len() implies {
                                ||| resolve_from(t, i, frames)->Ok_0[j] == resolve_from(
                                    s,
                                    i,
                                    frames,
                                )->Ok_0[j]
                                ||| (resolve_from(s, i, frames)->Ok_0[j] == s[j] && resolve_from(
                                    t,
                                    i,
                                    frames,
                                )->Ok_0[j] == t[j])
                            } by {
                                let os1 = resolve_from(s1, i + 1, rest)->Ok_0;
                                let ot1 = resolve_from(t1, i + 1, rest)->Ok_0;
                                assert(ot1[j] == os1[j] || (os1[j] == s1[j] && ot1[j] == t1[j]));
                                if j == i || j == do_ip {
                                    assert(s1[j] == t1[j]);
                                }
                            }
                        },
                        FrameV::ElifDo { do_ip, pending, .. } => {
                            let k1 = InstructionKind::Keyword(
                                Keyword::End { self_ip: Some(ip), loop_back_target: None },
                            );
                            let s1 = set_kind(patch_pending(patch_do(s, do_ip, ip), pending, ip), i as int, k1);
                            let t1 = set_kind(patch_pending(patch_do(t, do_ip, ip), pending, ip), i as int, k1);
                            assert forall|j: int| 0 <= j < s.len() implies same_shape(
                                s1[j],
                                #[trigger] t1[j],
                            ) && (s1[j] == t1[j] || (s1[j] == s[j] && t1[j] == t[j])) by {}
                            lemma_resolve_twin(s1, t1, i + 1, rest);
                            assert forall|j: int| 0 <= j < s.len() implies {
                                ||| resolve_from(t, i, frames)->Ok_0[j] == resolve_from(
                                    s,
                                    i,
                                    frames,
                                )->Ok_0[j]
                                ||| (resolve_from(s, i, frames)->Ok_0[j] == s[j] && resolve_from(
                                    t,
                                    i,
                                    frames,
                                )->Ok_0[j] == t[j])
                            } by {
                                let os1 = resolve_from(s1, i + 1, rest)->Ok_0;
                                let ot1 = resolve_from(t1, i + 1, rest)->Ok_0;
                                assert(ot1[j] == os1[j] || (os1[j] == s1[j] && ot1[j] == t1[j]));
                                assert(s1[j] == t1[j] || (s1[j] == s[j] && t1[j] == t[j]));
                            }
                        },
                        FrameV::Else { else_ip, pending } => {
                            let k1 = InstructionKind::Keyword(
                                Keyword::End { self_ip: Some(ip), loop_back_target: None },
                            );
                            let s1 = set_kind(patch_pending(patch_else(s, else_ip, ip), pending, ip), i as int, k1);
                            let t1 = set_kind(patch_pending(patch_else(t, else_ip, ip), pending, ip), i as int, k1);
                            assert forall|j: int| 0 <= j < s.len() implies same_shape(
                                s1[j],
                                #[trigger] t1[j],
                            ) && (s1[j] == t1[j] || (s1[j] == s[j] && t1[j] == t[j])) by {}
                            lemma_resolve_twin(s1, t1, i + 1, rest);
                            assert forall|j: int| 0 <= j < s.len() implies {
                                ||| resolve_from(t, i, frames)->Ok_0[j] == resolve_from(
                                    s,
                                    i,
                                    frames,
                                )->Ok_0[j]
                                ||| (resolve_from(s, i, frames)->Ok_0[j] == s[j] && resolve_from(
                                    t,
                                    i,
                                    frames,
                                )->Ok_0[j] == t[j])
                            } by {
                                let os1 = resolve_from(s1, i + 1, rest)->Ok_0;
                                let ot1 = resolve_from(t1, i + 1, rest)->Ok_0;
                                assert(ot1[j] == os1[j] || (os1[j] == s1[j] && ot1[j] == t1[j]));
                                assert(s1[j] == t1[j] || (s1[j] == s[j] && t1[j] == t[j]));
                            }
                        },
                        _ => {},
                    }
                },
                Keyword::Macro | Keyword::Include => {
                    lemma_resolve_twin(s, t, i + 1, frames);
                },
            },
            _ => {
                lemma_resolve_twin(s, t, i + 1, frames);
            },
        }
    }
}

/// Idempotence of re-resolution: running the resolver on an
/// already-resolved array computes the very same array, altering no jump
/// slot.
pub proof fn lemma_resolution_idempotent(s: Seq<Instruction>)
    requires
        s.len() <= usize::MAX,
        resolve_seq(s) is Ok,
    ensures
        resolve_seq(resolve_seq(s)->Ok_0) == resolve_seq(s),
{
    let out = resolve_seq(s)->Ok_0;
    lemma_resolve_ok_resolved(s, 0, Seq::empty());
    assert forall|j: int| 0 <= j < s.len() implies same_shape(s[j], #[trigger] out[j]) by {}
    lemma_resolve_twin(s, out, 0, Seq::empty());
    let out2 = resolve_from(out, 0, Seq::empty())->Ok_0;
    assert forall|j: int| 0 <= j < out.len() implies out2[j] == out[j] by {
        assert(out2[j] == out[j] || (out[j] == s[j] && out2[j] == out[j]));
    }
    assert(out2 =~= out);
}

} // verus!
