//! The stack-effect typechecker: a linear abstract execution of the
//! resolved instruction array over a symbolic value stack, verifying that
//! no operation underflows and that every control-flow join is reached
//! with the same stack shape on every path.
//!
//! The pass is mirrored by the spec functions [`tc_step`] and [`tc_from`],
//! so the executable typechecker's contract pins exactly which programs
//! are accepted, and the loop-neutrality and branch-convergence laws are
//! proved of the same model.

use vstd::prelude::*;
use crate::error::{Error, Fault, TypecheckError};
use crate::instruction::{
    Instruction, InstructionKind, Intrinsic, Keyword, Loc, Op, Program, SyscallKind, Value,
};

verus! {

/// A symbolic value on the typechecker's stack. A string literal occupies
/// two cells: an `Int` length below a `Ptr` to the data.
#[derive(Debug, Clone, Copy, PartialEq, Eq, Structural)]
pub enum ValType {
    Int,
    Char,
    Ptr,
    Bool,
}

/// The display text of a symbolic value type.
pub open spec fn val_type_text(v: ValType) -> Seq<char> {
    match v {
        ValType::Int => "int"@,
        ValType::Char => "char"@,
        ValType::Ptr => "ptr"@,
        ValType::Bool => "bool"@,
    }
}

impl ValType {
    /// The display text of the type.
    pub fn text(&self) -> (r: String)
        ensures
            r@ == val_type_text(*self),
    {
        match self {
            ValType::Int => String::from_str("int"),
            ValType::Char => String::from_str("char"),
            ValType::Ptr => String::from_str("ptr"),
            ValType::Bool => String::from_str("bool"),
        }
    }
}

/// Why a single transfer rule rejected the stack.
#[derive(Debug, Clone, Copy, PartialEq, Eq, Structural)]
pub enum TcKind {
    Underflow,
    BadType,
}

/// What a transfer rule pushes after its pops.
#[derive(Debug, Clone, Copy, PartialEq, Eq, Structural)]
pub enum Pushed {
    Zero,
    One(ValType),
    Two(ValType, ValType),
}

/// The cells a [`Pushed`] adds, bottom first.
pub open spec fn pushed_seq(p: Pushed) -> Seq<ValType> {
    match p {
        Pushed::Zero => Seq::empty(),
        Pushed::One(x) => seq![x],
        Pushed::Two(x, y) => seq![x, y],
    }
}

/// Whether the operator accepts `v` as its first (topmost) operand.
pub open spec fn op_accept_a(op: Op, v: ValType) -> bool {
    match op {
        Op::Add | Op::Sub | Op::Eq | Op::Neq => true,
        Op::Mul | Op::Div | Op::DivMod | Op::Shl | Op::Shr => v == ValType::Int,
        Op::BitwiseAnd | Op::BitwiseOr | Op::BitwiseXor => v != ValType::Ptr,
        Op::BitwiseNot => v == ValType::Int || v == ValType::Bool,
        Op::Lt | Op::Gt | Op::Lte | Op::Gte => v != ValType::Bool,
        Op::Store | Op::Store64 => v != ValType::Ptr,
        Op::Load | Op::Load64 => v == ValType::Ptr,
        Op::Mod => v != ValType::Bool,
    }
}

/// Whether the operator accepts `v` as its second operand.
pub open spec fn op_accept_b(op: Op, v: ValType) -> bool {
    match op {
        Op::Add | Op::Sub | Op::Eq | Op::Neq => true,
        Op::Mul | Op::Div | Op::DivMod | Op::Shl | Op::Shr => v == ValType::Int,
        Op::BitwiseAnd | Op::BitwiseOr | Op::BitwiseXor => v != ValType::Ptr,
        Op::Lt | Op::Gt | Op::Lte | Op::Gte => v != ValType::Bool,
        Op::Store | Op::Store64 => v == ValType::Ptr,
        Op::Mod => v == ValType::Int || v == ValType::Char,
        Op::BitwiseNot | Op::Load | Op::Load64 => true,
    }
}

/// The result cells of a binary operator on accepted operands, or `None`
/// when the combination is unsupported. `a` is the topmost operand.
pub open spec fn op_pair(op: Op, a: ValType, b: ValType) -> Option<Pushed> {
    match op {
        Op::Add => match (a, b) {
            (ValType::Int, ValType::Int) => Some(Pushed::One(ValType::Int)),
            (ValType::Int, ValType::Ptr) => Some(Pushed::One(ValType::Ptr)),
            (ValType::Ptr, ValType::Int) => Some(Pushed::One(ValType::Ptr)),
            (ValType::Char, ValType::Int) => Some(Pushed::One(ValType::Char)),
            (ValType::Int, ValType::Char) => Some(Pushed::One(ValType::Int)),
            (ValType::Int, ValType::Bool) => Some(Pushed::One(ValType::Int)),
            (ValType::Bool, ValType::Int) => Some(Pushed::One(ValType::Int)),
            _ => None,
        },
        Op::Sub => match (a, b) {
            (ValType::Int, ValType::Int) => Some(Pushed::One(ValType::Int)),
            (ValType::Ptr, ValType::Int) => Some(Pushed::One(ValType::Ptr)),
            (ValType::Char, ValType::Int) => Some(Pushed::One(ValType::Char)),
            (ValType::Int, ValType::Char) => Some(Pushed::One(ValType::Int)),
            (ValType::Int, ValType::Bool) => Some(Pushed::One(ValType::Int)),
            (ValType::Bool, ValType::Int) => Some(Pushed::One(ValType::Int)),
            _ => None,
        },
        Op::Mul | Op::Div | Op::Shl | Op::Shr => Some(Pushed::One(ValType::Int)),
        Op::DivMod => Some(Pushed::Two(ValType::Int, ValType::Int)),
        Op::BitwiseAnd | Op::BitwiseOr | Op::BitwiseXor => match (a, b) {
            (ValType::Int, ValType::Bool) => Some(Pushed::One(ValType::Int)),
            (ValType::Bool, ValType::Int) => Some(Pushed::One(ValType::Int)),
            (ValType::Bool, ValType::Bool) => Some(Pushed::One(ValType::Bool)),
            (ValType::Int, ValType::Char) => Some(Pushed::One(ValType::Int)),
            (ValType::Char, ValType::Int) => Some(Pushed::One(ValType::Int)),
            (ValType::Char, ValType::Char) => Some(Pushed::One(ValType::Char)),
            (ValType::Char, ValType::Bool) => Some(Pushed::One(ValType::Char)),
            (ValType::Bool, ValType::Char) => Some(Pushed::One(ValType::Char)),
            (ValType::Int, ValType::Int) => Some(Pushed::One(ValType::Int)),
            _ => None,
        },
        Op::Eq | Op::Neq => match (a, b) {
            (ValType::Char, ValType::Ptr) => None,
            (ValType::Ptr, ValType::Char) => None,
            (ValType::Ptr, ValType::Bool) => None,
            (ValType::Bool, ValType::Ptr) => None,
            _ => Some(Pushed::One(ValType::Bool)),
        },
        Op::Lt | Op::Gt | Op::Lte | Op::Gte => match (a, b) {
            (ValType::Int, ValType::Int) => Some(Pushed::One(ValType::Bool)),
            (ValType::Ptr, ValType::Ptr) => Some(Pushed::One(ValType::Bool)),
            (ValType::Char, ValType::Char) => Some(Pushed::One(ValType::Bool)),
            (ValType::Char, ValType::Int) => Some(Pushed::One(ValType::Bool)),
            (ValType::Int, ValType::Char) => Some(Pushed::One(ValType::Bool)),
            _ => None,
        },
        Op::Store | Op::Store64 => Some(Pushed::Zero),
        Op::Mod => match (a, b) {
            (ValType::Int, ValType::Int) => Some(Pushed::One(ValType::Int)),
            (ValType::Char, ValType::Char) => Some(Pushed::One(ValType::Char)),
            (ValType::Char, ValType::Int) => Some(Pushed::One(ValType::Char)),
            (ValType::Int, ValType::Char) => Some(Pushed::One(ValType::Int)),
            (ValType::Ptr, ValType::Int) => Some(Pushed::One(ValType::Ptr)),
            (ValType::Ptr, ValType::Char) => Some(Pushed::One(ValType::Ptr)),
            _ => None,
        },
        Op::BitwiseNot | Op::Load | Op::Load64 => None,
    }
}

/// Whether the operator pops a single operand.
pub open spec fn op_unary(op: Op) -> bool {
    match op {
        Op::BitwiseNot | Op::Load | Op::Load64 => true,
        _ => false,
    }
}

/// The single result of a unary operator.
pub open spec fn op_unary_result(op: Op, a: ValType) -> ValType {
    match op {
        Op::BitwiseNot => a,
        _ => ValType::Int,
    }
}

/// The transfer rule of one primitive operator: pop the operand(s),
/// checking each against its acceptance set in pop order, then push the
/// combination's result cells.
pub open spec fn op_result(op: Op, stack: Seq<ValType>) -> Result<Seq<ValType>, TcKind> {
    if op_unary(op) {
        if stack.len() < 1 {
            Result::Err(TcKind::Underflow)
        } else if !op_accept_a(op, stack.last()) {
            Result::Err(TcKind::BadType)
        } else {
            Result::Ok(stack.drop_last().push(op_unary_result(op, stack.last())))
        }
    } else {
        if stack.len() < 1 {
            Result::Err(TcKind::Underflow)
        } else if !op_accept_a(op, stack.last()) {
            Result::Err(TcKind::BadType)
        } else if stack.len() < 2 {
            Result::Err(TcKind::Underflow)
        } else if !op_accept_b(op, stack[stack.len() - 2]) {
            Result::Err(TcKind::BadType)
        } else {
            match op_pair(op, stack.last(), stack[stack.len() - 2]) {
                Some(p) => Result::Ok(
                    stack.take(stack.len() - 2) + pushed_seq(p),
                ),
                None => Result::Err(TcKind::BadType),
            }
        }
    }
}

fn op_accept_a_exec(op: Op, v: ValType) -> (r: bool)
    ensures
        r == op_accept_a(op, v),
{
    match op {
        Op::Add | Op::Sub | Op::Eq | Op::Neq => true,
        Op::Mul | Op::Div | Op::DivMod | Op::Shl | Op::Shr => v == ValType::Int,
        Op::BitwiseAnd | Op::BitwiseOr | Op::BitwiseXor => v != ValType::Ptr,
        Op::BitwiseNot => v == ValType::Int || v == ValType::Bool,
        Op::Lt | Op::Gt | Op::Lte | Op::Gte => v != ValType::Bool,
        Op::Store | Op::Store64 => v != ValType::Ptr,
        Op::Load | Op::Load64 => v == ValType::Ptr,
        Op::Mod => v != ValType::Bool,
    }
}

fn op_accept_b_exec(op: Op, v: ValType) -> (r: bool)
    ensures
        r == op_accept_b(op, v),
{
    match op {
        Op::Add | Op::Sub | Op::Eq | Op::Neq => true,
        Op::Mul | Op::Div | Op::DivMod | Op::Shl | Op::Shr => v == ValType::Int,
        Op::BitwiseAnd | Op::BitwiseOr | Op::BitwiseXor => v != ValType::Ptr,
        Op::Lt | Op::Gt | Op::Lte | Op::Gte => v != ValType::Bool,
        Op::Store | Op::Store64 => v == ValType::Ptr,
        Op::Mod => v == ValType::Int || v == ValType::Char,
        Op::BitwiseNot | Op::Load | Op::Load64 => true,
    }
}

fn op_pair_exec(op: Op, a: ValType, b: ValType) -> (r: Option<Pushed>)
    ensures
        r == op_pair(op, a, b),
{
    match op {
        Op::Add => match (a, b) {
            (ValType::Int, ValType::Int) => Some(Pushed::One(ValType::Int)),
            (ValType::Int, ValType::Ptr) => Some(Pushed::One(ValType::Ptr)),
            (ValType::Ptr, ValType::Int) => Some(Pushed::One(ValType::Ptr)),
            (ValType::Char, ValType::Int) => Some(Pushed::One(ValType::Char)),
            (ValType::Int, ValType::Char) => Some(Pushed::One(ValType::Int)),
            (ValType::Int, ValType::Bool) => Some(Pushed::One(ValType::Int)),
            (ValType::Bool, ValType::Int) => Some(Pushed::One(ValType::Int)),
            _ => None,
        },
        Op::Sub => match (a, b) {
            (ValType::Int, ValType::Int) => Some(Pushed::One(ValType::Int)),
            (ValType::Ptr, ValType::Int) => Some(Pushed::One(ValType::Ptr)),
            (ValType::Char, ValType::Int) => Some(Pushed::One(ValType::Char)),
            (ValType::Int, ValType::Char) => Some(Pushed::One(ValType::Int)),
            (ValType::Int, ValType::Bool) => Some(Pushed::One(ValType::Int)),
            (ValType::Bool, ValType::Int) => Some(Pushed::One(ValType::Int)),
            _ => None,
        },
        Op::Mul | Op::Div | Op::Shl | Op::Shr => Some(Pushed::One(ValType::Int)),
        Op::DivMod => Some(Pushed::Two(ValType::Int, ValType::Int)),
        Op::BitwiseAnd | Op::BitwiseOr | Op::BitwiseXor => match (a, b) {
            (ValType::Int, ValType::Bool) => Some(Pushed::One(ValType::Int)),
            (ValType::Bool, ValType::Int) => Some(Pushed::One(ValType::Int)),
            (ValType::Bool, ValType::Bool) => Some(Pushed::One(ValType::Bool)),
            (ValType::Int, ValType::Char) => Some(Pushed::One(ValType::Int)),
            (ValType::Char, ValType::Int) => Some(Pushed::One(ValType::Int)),
            (ValType::Char, ValType::Char) => Some(Pushed::One(ValType::Char)),
            (ValType::Char, ValType::Bool) => Some(Pushed::One(ValType::Char)),
            (ValType::Bool, ValType::Char) => Some(Pushed::One(ValType::Char)),
            (ValType::Int, ValType::Int) => Some(Pushed::One(ValType::Int)),
            _ => None,
        },
        Op::Eq | Op::Neq => match (a, b) {
            (ValType::Char, ValType::Ptr) => None,
            (ValType::Ptr, ValType::Char) => None,
            (ValType::Ptr, ValType::Bool) => None,
            (ValType::Bool, ValType::Ptr) => None,
            _ => Some(Pushed::One(ValType::Bool)),
        },
        Op::Lt | Op::Gt | Op::Lte | Op::Gte => match (a, b) {
            (ValType::Int, ValType::Int) => Some(Pushed::One(ValType::Bool)),
            (ValType::Ptr, ValType::Ptr) => Some(Pushed::One(ValType::Bool)),
            (ValType::Char, ValType::Char) => Some(Pushed::One(ValType::Bool)),
            (ValType::Char, ValType::Int) => Some(Pushed::One(ValType::Bool)),
            (ValType::Int, ValType::Char) => Some(Pushed::One(ValType::Bool)),
            _ => None,
        },
        Op::Store | Op::Store64 => Some(Pushed::Zero),
        Op::Mod => match (a, b) {
            (ValType::Int, ValType::Int) => Some(Pushed::One(ValType::Int)),
            (ValType::Char, ValType::Char) => Some(Pushed::One(ValType::Char)),
            (ValType::Char, ValType::Int) => Some(Pushed::One(ValType::Char)),
            (ValType::Int, ValType::Char) => Some(Pushed::One(ValType::Int)),
            (ValType::Ptr, ValType::Int) => Some(Pushed::One(ValType::Ptr)),
            (ValType::Ptr, ValType::Char) => Some(Pushed::One(ValType::Ptr)),
            _ => None,
        },
        Op::BitwiseNot | Op::Load | Op::Load64 => None,
    }
}

/// Apply one operator's transfer rule to the live stack.
fn apply_op(op: Op, stack: &mut Vec<ValType>) -> (r: Result<(), TcKind>)
    ensures
        match r {
            Result::Ok(()) => op_result(op, old(stack)@) matches Result::Ok(s)
                && final(stack)@ == s,
            Result::Err(k) => op_result(op, old(stack)@) == Result::<Seq<ValType>, TcKind>::Err(k),
        },
{
    let unary = match op {
        Op::BitwiseNot | Op::Load | Op::Load64 => true,
        _ => false,
    };
    if stack.len() < 1 {
        return Result::Err(TcKind::Underflow);
    }
    let a = stack[stack.len() - 1];
    if !op_accept_a_exec(op, a) {
        return Result::Err(TcKind::BadType);
    }
    if unary {
        let res = match op {
            Op::BitwiseNot => a,
            _ => ValType::Int,
        };
        stack.pop();
        stack.push(res);
        proof {
            assert(stack@ =~= old(stack)@.drop_last().push(op_unary_result(op, old(stack)@.last())));
        }
        return Result::Ok(());
    }
    if stack.len() < 2 {
        return Result::Err(TcKind::Underflow);
    }
    let b = stack[stack.len() - 2];
    if !op_accept_b_exec(op, b) {
        return Result::Err(TcKind::BadType);
    }
    match op_pair_exec(op, a, b) {
        None => Result::Err(TcKind::BadType),
        Some(p) => {
            stack.pop();
            stack.pop();
            match p {
                Pushed::Zero => {},
                Pushed::One(x) => {
                    stack.push(x);
                },
                Pushed::Two(x, y) => {
                    stack.push(x);
                    stack.push(y);
                },
            }
            proof {
                assert(stack@ =~= old(stack)@.take(old(stack)@.len() - 2) + pushed_seq(p));
            }
            Result::Ok(())
        },
    }
}

/// How many cells a syscall pops: its number plus its arguments.
pub open spec fn syscall_pops(s: SyscallKind) -> nat {
    match s {
        SyscallKind::Syscall0 => 1,
        SyscallKind::Syscall1 => 2,
        SyscallKind::Syscall2 => 3,
        SyscallKind::Syscall3 => 4,
        SyscallKind::Syscall4 => 5,
        SyscallKind::Syscall5 => 6,
        SyscallKind::Syscall6 => 7,
    }
}

/// The transfer rule of a syscall: pop the number and the arguments
/// (whatever their types), push the `Int` return value.
pub open spec fn syscall_result(s: SyscallKind, stack: Seq<ValType>) -> Result<
    Seq<ValType>,
    TcKind,
> {
    if stack.len() < syscall_pops(s) {
        Result::Err(TcKind::Underflow)
    } else {
        Result::Ok(stack.take(stack.len() - syscall_pops(s)).push(ValType::Int))
    }
}

/// Apply a syscall's transfer rule to the live stack.
fn apply_syscall(s: SyscallKind, stack: &mut Vec<ValType>) -> (r: Result<(), TcKind>)
    ensures
        match r {
            Result::Ok(()) => syscall_result(s, old(stack)@) matches Result::Ok(t)
                && final(stack)@ == t,
            Result::Err(k) => syscall_result(s, old(stack)@) == Result::<Seq<ValType>, TcKind>::Err(
                k,
            ),
        },
{
    let n: usize = match s {
        SyscallKind::Syscall0 => 1,
        SyscallKind::Syscall1 => 2,
        SyscallKind::Syscall2 => 3,
        SyscallKind::Syscall3 => 4,
        SyscallKind::Syscall4 => 5,
        SyscallKind::Syscall5 => 6,
        SyscallKind::Syscall6 => 7,
    };
    if stack.len() < n {
        return Result::Err(TcKind::Underflow);
    }
    let keep = stack.len() - n;
    stack.truncate(keep);
    stack.push(ValType::Int);
    proof {
        assert(stack@ =~= old(stack)@.take(old(stack)@.len() - syscall_pops(s)).push(ValType::Int));
    }
    Result::Ok(())
}

/// The cells a pushed literal adds to the stack: a string pushes its
/// length then a pointer to its bytes.
pub open spec fn push_cells(v: Value) -> Seq<ValType> {
    match v {
        Value::Int(_) => seq![ValType::Int],
        Value::Char(_) => seq![ValType::Char],
        Value::Str(_) => seq![ValType::Int, ValType::Ptr],
        Value::Ptr(_) => seq![ValType::Ptr],
        Value::Bool(_) => seq![ValType::Bool],
    }
}

/// The transfer rule of a stack-shuffle or environment intrinsic. All are
/// agnostic to symbolic types except the casts.
pub open spec fn intrinsic_result(i: Intrinsic, stack: Seq<ValType>) -> Result<
    Seq<ValType>,
    TcKind,
> {
    match i {
        Intrinsic::Argc => Result::Ok(stack.push(ValType::Int)),
        Intrinsic::Argv => Result::Ok(stack.push(ValType::Ptr)),
        Intrinsic::Mem => Result::Ok(stack.push(ValType::Ptr)),
        Intrinsic::Here => Result::Ok(stack + seq![ValType::Int, ValType::Ptr]),
        Intrinsic::Panic => Result::Ok(stack),
        Intrinsic::Print | Intrinsic::Drop => if stack.len() < 1 {
            Result::Err(TcKind::Underflow)
        } else {
            Result::Ok(stack.drop_last())
        },
        Intrinsic::Drop2 => if stack.len() < 2 {
            Result::Err(TcKind::Underflow)
        } else {
            Result::Ok(stack.take(stack.len() - 2))
        },
        Intrinsic::Dup => if stack.len() < 1 {
            Result::Err(TcKind::Underflow)
        } else {
            Result::Ok(stack.push(stack.last()))
        },
        Intrinsic::Dup2 => if stack.len() < 2 {
            Result::Err(TcKind::Underflow)
        } else {
            Result::Ok(stack.push(stack[stack.len() - 2]).push(stack.last()))
        },
        Intrinsic::Swap => if stack.len() < 2 {
            Result::Err(TcKind::Underflow)
        } else {
            Result::Ok(
                stack.take(stack.len() - 2).push(stack.last()).push(stack[stack.len() - 2]),
            )
        },
        Intrinsic::Over => if stack.len() < 2 {
            Result::Err(TcKind::Underflow)
        } else {
            Result::Ok(stack.push(stack[stack.len() - 2]))
        },
        Intrinsic::CastPtr => if stack.len() < 1 {
            Result::Err(TcKind::Underflow)
        } else if stack.last() != ValType::Int {
            Result::Err(TcKind::BadType)
        } else {
            Result::Ok(stack.drop_last().push(ValType::Ptr))
        },
        Intrinsic::CastInt => if stack.len() < 1 {
            Result::Err(TcKind::Underflow)
        } else if stack.last() == ValType::Int {
            Result::Err(TcKind::BadType)
        } else {
            Result::Ok(stack.drop_last().push(ValType::Int))
        },
    }
}

/// Apply an intrinsic's transfer rule to the live stack.
fn apply_intrinsic(i: Intrinsic, stack: &mut Vec<ValType>) -> (r: Result<(), TcKind>)
    ensures
        match r {
            Result::Ok(()) => intrinsic_result(i, old(stack)@) matches Result::Ok(t)
                && final(stack)@ == t,
            Result::Err(k) => intrinsic_result(i, old(stack)@) == Result::<
                Seq<ValType>,
                TcKind,
            >::Err(k),
        },
{
    match i {
        Intrinsic::Argc => {
            stack.push(ValType::Int);
            Result::Ok(())
        },
        Intrinsic::Argv => {
            stack.push(ValType::Ptr);
            Result::Ok(())
        },
        Intrinsic::Mem => {
            stack.push(ValType::Ptr);
            Result::Ok(())
        },
        Intrinsic::Here => {
            stack.push(ValType::Int);
            stack.push(ValType::Ptr);
            proof {
                assert(stack@ =~= old(stack)@ + seq![ValType::Int, ValType::Ptr]);
            }
            Result::Ok(())
        },
        Intrinsic::Panic => Result::Ok(()),
        Intrinsic::Print | Intrinsic::Drop => {
            if stack.len() < 1 {
                return Result::Err(TcKind::Underflow);
            }
            stack.pop();
            Result::Ok(())
        },
        Intrinsic::Drop2 => {
            if stack.len() < 2 {
                return Result::Err(TcKind::Underflow);
            }
            stack.pop();
            stack.pop();
            proof {
                assert(stack@ =~= old(stack)@.take(old(stack)@.len() - 2));
            }
            Result::Ok(())
        },
        Intrinsic::Dup => {
            if stack.len() < 1 {
                return Result::Err(TcKind::Underflow);
            }
            let a = stack[stack.len() - 1];
            stack.push(a);
            Result::Ok(())
        },
        Intrinsic::Dup2 => {
            if stack.len() < 2 {
                return Result::Err(TcKind::Underflow);
            }
            let a = stack[stack.len() - 1];
            let b = stack[stack.len() - 2];
            stack.push(b);
            stack.push(a);
            proof {
                assert(stack@ =~= old(stack)@.push(old(stack)@[old(stack)@.len() - 2]).push(
                    old(stack)@.last(),
                ));
            }
            Result::Ok(())
        },
        Intrinsic::Swap => {
            if stack.len() < 2 {
                return Result::Err(TcKind::Underflow);
            }
            let a = stack[stack.len() - 1];
            let b = stack[stack.len() - 2];
            stack.pop();
            stack.pop();
            stack.push(a);
            stack.push(b);
            proof {
                assert(stack@ =~= old(stack)@.take(old(stack)@.len() - 2).push(
                    old(stack)@.last(),
                ).push(old(stack)@[old(stack)@.len() - 2]));
            }
            Result::Ok(())
        },
        Intrinsic::Over => {
            if stack.len() < 2 {
                return Result::Err(TcKind::Underflow);
            }
            let b = stack[stack.len() - 2];
            stack.push(b);
            Result::Ok(())
        },
        Intrinsic::CastPtr => {
            if stack.len() < 1 {
                return Result::Err(TcKind::Underflow);
            }
            let a = stack[stack.len() - 1];
            if a != ValType::Int {
                return Result::Err(TcKind::BadType);
            }
            stack.pop();
            stack.push(ValType::Ptr);
            Result::Ok(())
        },
        Intrinsic::CastInt => {
            if stack.len() < 1 {
                return Result::Err(TcKind::Underflow);
            }
            let a = stack[stack.len() - 1];
            if a == ValType::Int {
                return Result::Err(TcKind::BadType);
            }
            stack.pop();
            stack.push(ValType::Int);
            Result::Ok(())
        },
    }
}


/// A snapshot on the typechecker's side stack. `Do` remembers the stack
/// shape on the branch-not-taken path, whether the enclosing construct is
/// a loop, and, inside an `elif` chain, the exit shape the finished arms
/// agreed on. `Else`-tagged snapshots carry the exit shape every
/// remaining path must reproduce at `end`.
#[derive(Debug)]
pub enum TFrame {
    While { entry: Vec<ValType> },
    If { entry: Vec<ValType> },
    Elif { entry: Vec<ValType>, chain: Vec<ValType> },
    Do { branch: Vec<ValType>, looping: bool, chain: Option<Vec<ValType>> },
    Else { exit: Vec<ValType> },
}

/// The mathematical view of a typechecker snapshot.
pub enum TFrameV {
    While { entry: Seq<ValType> },
    If { entry: Seq<ValType> },
    Elif { entry: Seq<ValType>, chain: Seq<ValType> },
    Do { branch: Seq<ValType>, looping: bool, chain: Option<Seq<ValType>> },
    Else { exit: Seq<ValType> },
}

impl View for TFrame {
    type V = TFrameV;

    open spec fn view(&self) -> TFrameV {
        match self {
            TFrame::While { entry } => TFrameV::While { entry: entry@ },
            TFrame::If { entry } => TFrameV::If { entry: entry@ },
            TFrame::Elif { entry, chain } => TFrameV::Elif { entry: entry@, chain: chain@ },
            TFrame::Do { branch, looping, chain } => TFrameV::Do {
                branch: branch@,
                looping: *looping,
                chain: match chain {
                    Some(c) => Some(c@),
                    None => None,
                },
            },
            TFrame::Else { exit } => TFrameV::Else { exit: exit@ },
        }
    }
}

/// The views of a snapshot stack.
pub open spec fn tframesv(fs: Seq<TFrame>) -> Seq<TFrameV> {
    fs.map_values(|f: TFrame| f@)
}

/// The typechecker's whole abstract state: the live symbolic stack and
/// the side stack of snapshots.
pub struct StateV {
    pub stack: Seq<ValType>,
    pub frames: Seq<TFrameV>,
}

/// Why the typechecker rejected the program, and at which instruction.
#[derive(Debug, Clone, Copy, PartialEq, Eq, Structural)]
pub enum TcErrV {
    StackUnderflow { ip: usize },
    InvalidTypeForOp { ip: usize },
    IncludeInCode { ip: usize },
    MacroInCode { ip: usize },
    InvalidEnd { ip: usize },
    InvalidElse { ip: usize },
    InvalidLoop { ip: usize },
    InvalidStack,
}

/// One abstract execution step, at instruction pointer `ip`.
pub open spec fn tc_step(st: StateV, k: InstructionKind, ip: usize) -> Result<StateV, TcErrV> {
    match k {
        InstructionKind::Push(v) => Result::Ok(
            StateV { stack: st.stack + push_cells(v), frames: st.frames },
        ),
        InstructionKind::Op(op) => match op_result(op, st.stack) {
            Result::Ok(stack) => Result::Ok(StateV { stack, frames: st.frames }),
            Result::Err(TcKind::Underflow) => Result::Err(TcErrV::StackUnderflow { ip }),
            Result::Err(TcKind::BadType) => Result::Err(TcErrV::InvalidTypeForOp { ip }),
        },
        InstructionKind::Intrinsic(i) => match intrinsic_result(i, st.stack) {
            Result::Ok(stack) => Result::Ok(StateV { stack, frames: st.frames }),
            Result::Err(TcKind::Underflow) => Result::Err(TcErrV::StackUnderflow { ip }),
            Result::Err(TcKind::BadType) => Result::Err(TcErrV::InvalidTypeForOp { ip }),
        },
        InstructionKind::Syscall(sc) => match syscall_result(sc, st.stack) {
            Result::Ok(stack) => Result::Ok(StateV { stack, frames: st.frames }),
            Result::Err(_) => Result::Err(TcErrV::StackUnderflow { ip }),
        },
        InstructionKind::Name(_) => Result::Err(TcErrV::MacroInCode { ip }),
        InstructionKind::Keyword(kw) => match kw {
            Keyword::While { .. } => Result::Ok(
                StateV {
                    stack: st.stack,
                    frames: st.frames.push(TFrameV::While { entry: st.stack }),
                },
            ),
            Keyword::If => Result::Ok(
                StateV {
                    stack: st.stack,
                    frames: st.frames.push(TFrameV::If { entry: st.stack }),
                },
            ),
            Keyword::Do { .. } => {
                if st.stack.len() < 1 {
                    Result::Err(TcErrV::StackUnderflow { ip })
                } else if st.stack.last() != ValType::Bool {
                    Result::Err(TcErrV::InvalidTypeForOp { ip })
                } else {
                    let popped = st.stack.drop_last();
                    if st.frames.len() == 0 {
                        Result::Err(TcErrV::InvalidLoop { ip })
                    } else {
                        match st.frames.last() {
                            TFrameV::While { entry } => {
                                if popped != entry {
                                    Result::Err(TcErrV::InvalidLoop { ip })
                                } else {
                                    Result::Ok(
                                        StateV {
                                            stack: popped,
                                            frames: st.frames.drop_last().push(
                                                TFrameV::Do {
                                                    branch: popped,
                                                    looping: true,
                                                    chain: None,
                                                },
                                            ),
                                        },
                                    )
                                }
                            },
                            TFrameV::If { .. } => Result::Ok(
                                StateV {
                                    stack: popped,
                                    frames: st.frames.drop_last().push(
                                        TFrameV::Do { branch: popped, looping: false, chain: None },
                                    ),
                                },
                            ),
                            TFrameV::Elif { chain, .. } => Result::Ok(
                                StateV {
                                    stack: popped,
                                    frames: st.frames.drop_last().push(
                                        TFrameV::Do {
                                            branch: popped,
                                            looping: false,
                                            chain: Some(chain),
                                        },
                                    ),
                                },
                            ),
                            _ => Result::Err(TcErrV::InvalidLoop { ip }),
                        }
                    }
                }
            },
            Keyword::Elif { .. } => {
                if st.frames.len() == 0 {
                    Result::Err(TcErrV::InvalidElse { ip })
                } else {
                    match st.frames.last() {
                        TFrameV::Do { branch, chain, .. } => {
                            if chain matches Some(c) && c != st.stack {
                                Result::Err(TcErrV::InvalidEnd { ip })
                            } else {
                                Result::Ok(
                                    StateV {
                                        stack: branch,
                                        frames: st.frames.drop_last().push(
                                            TFrameV::Elif { entry: branch, chain: st.stack },
                                        ),
                                    },
                                )
                            }
                        },
                        _ => Result::Err(TcErrV::InvalidElse { ip }),
                    }
                }
            },
            Keyword::Else { .. } => {
                if st.frames.len() == 0 {
                    Result::Err(TcErrV::InvalidElse { ip })
                } else {
                    match st.frames.last() {
                        TFrameV::Do { branch, chain, .. } => {
                            if chain matches Some(c) && c != st.stack {
                                Result::Err(TcErrV::InvalidEnd { ip })
                            } else {
                                Result::Ok(
                                    StateV {
                                        stack: branch,
                                        frames: st.frames.drop_last().push(
                                            TFrameV::Else { exit: st.stack },
                                        ),
                                    },
                                )
                            }
                        },
                        _ => Result::Err(TcErrV::InvalidElse { ip }),
                    }
                }
            },
            Keyword::End { .. } => {
                if st.frames.len() == 0 {
                    Result::Err(TcErrV::InvalidEnd { ip })
                } else {
                    match st.frames.last() {
                        TFrameV::Do { branch, chain, .. } => {
                            if st.stack != branch {
                                Result::Err(TcErrV::InvalidEnd { ip })
                            } else if chain matches Some(c) && c != branch {
                                Result::Err(TcErrV::InvalidEnd { ip })
                            } else {
                                Result::Ok(
                                    StateV { stack: st.stack, frames: st.frames.drop_last() },
                                )
                            }
                        },
                        TFrameV::Else { exit } => {
                            if st.stack != exit {
                                Result::Err(TcErrV::InvalidEnd { ip })
                            } else {
                                Result::Ok(
                                    StateV { stack: st.stack, frames: st.frames.drop_last() },
                                )
                            }
                        },
                        _ => Result::Err(TcErrV::InvalidEnd { ip }),
                    }
                }
            },
            Keyword::Macro => Result::Err(TcErrV::MacroInCode { ip }),
            Keyword::Include => Result::Err(TcErrV::IncludeInCode { ip }),
        },
    }
}

/// Abstract execution of the array from position `i`.
pub open spec fn tc_from(s: Seq<Instruction>, i: nat, st: StateV) -> Result<StateV, TcErrV>
    decreases s.len() - i,
{
    if i >= s.len() {
        Result::Ok(st)
    } else {
        match tc_step(st, s[i as int].kind, i as usize) {
            Result::Ok(st1) => tc_from(s, i + 1, st1),
            Result::Err(e) => Result::Err(e),
        }
    }
}

/// A final stack is valid when it is empty or holds exactly the `Int`
/// process exit code.
pub open spec fn valid_final(stack: Seq<ValType>) -> bool {
    stack.len() == 0 || (stack.len() == 1 && stack[0] == ValType::Int)
}

/// The typechecker's verdict on a whole instruction array.
pub open spec fn typecheck_seq(s: Seq<Instruction>) -> Result<(), TcErrV> {
    match tc_from(s, 0, StateV { stack: Seq::empty(), frames: Seq::empty() }) {
        Result::Err(e) => Result::Err(e),
        Result::Ok(st) => if valid_final(st.stack) {
            Result::Ok(())
        } else {
            Result::Err(TcErrV::InvalidStack)
        },
    }
}

/// Compare two symbolic stacks for equality of shape.
pub fn stacks_equal(a: &Vec<ValType>, b: &Vec<ValType>) -> (r: bool)
    ensures
        r == (a@ == b@),
{
    if a.len() != b.len() {
        proof {
            assert(a@ != b@);
        }
        return false;
    }
    let mut i: usize = 0;
    while i < a.len()
        invariant
            i <= a@.len(),
            a@.len() == b@.len(),
            forall|j: int| 0 <= j < i ==> a@[j] == b@[j],
        decreases a@.len() - i,
    {
        if a[i] != b[i] {
            proof {
                assert(a@[i as int] != b@[i as int]);
            }
            return false;
        }
        i = i + 1;
    }
    proof {
        assert(a@ =~= b@);
    }
    true
}

/// Copy a symbolic stack.
pub fn clone_stack(v: &Vec<ValType>) -> (r: Vec<ValType>)
    ensures
        r@ == v@,
{
    let mut r: Vec<ValType> = Vec::new();
    let mut i: usize = 0;
    while i < v.len()
        invariant
            i <= v@.len(),
            r@ == v@.take(i as int),
        decreases v@.len() - i,
    {
        r.push(v[i]);
        i = i + 1;
        proof {
            assert(r@ =~= v@.take(i as int));
        }
    }
    proof {
        assert(v@.take(v@.len() as int) =~= v@);
    }
    r
}

/// How an executable typechecking fault corresponds to the model's error:
/// the matching error kind (with the offending instruction's display text
/// for a type mismatch), the offending position and its source location,
/// and no secondary position. An invalid final stack is reported at the
/// end of the program, located at its last instruction.
pub open spec fn tc_fault_for(f: Fault, e: TcErrV, s: Seq<Instruction>) -> bool {
    match e {
        TcErrV::StackUnderflow { ip } => f.ip == ip && ip < s.len() && f.loc == s[ip as int].loc
            && f.secondary is None && f.error matches Error::TypecheckError(
            TypecheckError::StackUnderflow,
        ),
        TcErrV::InvalidTypeForOp { ip } => f.ip == ip && ip < s.len() && f.loc == s[ip as int].loc
            && f.secondary is None && (f.error matches Error::TypecheckError(
            TypecheckError::InvalidTypeForOp(m),
        ) && m@ == crate::instruction::kind_text(s[ip as int].kind)),
        TcErrV::IncludeInCode { ip } => f.ip == ip && ip < s.len() && f.loc == s[ip as int].loc
            && f.secondary is None && f.error matches Error::TypecheckError(
            TypecheckError::IncludeInCode,
        ),
        TcErrV::MacroInCode { ip } => f.ip == ip && ip < s.len() && f.loc == s[ip as int].loc
            && f.secondary is None && f.error matches Error::TypecheckError(
            TypecheckError::MacroInCode,
        ),
        TcErrV::InvalidEnd { ip } => f.ip == ip && ip < s.len() && f.loc == s[ip as int].loc
            && f.secondary is None && f.error matches Error::TypecheckError(
            TypecheckError::InvalidEnd,
        ),
        TcErrV::InvalidElse { ip } => f.ip == ip && ip < s.len() && f.loc == s[ip as int].loc
            && f.secondary is None && f.error matches Error::TypecheckError(
            TypecheckError::InvalidElse,
        ),
        TcErrV::InvalidLoop { ip } => f.ip == ip && ip < s.len() && f.loc == s[ip as int].loc
            && f.secondary is None && f.error matches Error::TypecheckError(
            TypecheckError::InvalidLoop,
        ),
        TcErrV::InvalidStack => f.ip == s.len() && f.secondary is None
            && (s.len() > 0 ==> f.loc == s[s.len() - 1].loc) && f.error matches Error::TypecheckError(
            TypecheckError::InvalidStack,
        ),
    }
}

fn mk_tc_fault(err: TypecheckError, ip: usize, loc: Loc) -> (f: Fault)
    ensures
        f.error == Error::TypecheckError(err),
        f.ip == ip,
        f.loc == loc,
        f.secondary is None,
{
    Fault { error: Error::TypecheckError(err), ip, loc, secondary: None }
}

/// Statically prove that the resolved instruction array never underflows
/// its symbolic stack, that every control-flow join is reached with the
/// same stack shape on every path, that loop conditions are stack-neutral,
/// and that the program ends with an empty stack or a single `Int` exit
/// code. The verdict is exactly what the model [`typecheck_seq`] computes;
/// the first offending instruction is reported with its source location.
pub fn typecheck(program: &Program) -> (r: Result<(), Fault>)
    ensures
        match r {
            Result::Ok(()) => typecheck_seq(program.instructions@) is Ok,
            Result::Err(f) => typecheck_seq(program.instructions@) matches Result::Err(e)
                && tc_fault_for(f, e, program.instructions@),
        },
{
    let insts = &program.instructions;
    let ghost s0 = insts@;
    let mut stack: Vec<ValType> = Vec::new();
    let mut frames: Vec<TFrame> = Vec::new();
    let mut i: usize = 0;
    proof {
        assert(tframesv(frames@) =~= Seq::<TFrameV>::empty());
    }
    while i < insts.len()
        invariant
            s0 == program.instructions@,
            insts@ == s0,
            i <= s0.len(),
            tc_from(s0, 0, StateV { stack: Seq::empty(), frames: Seq::empty() }) == tc_from(
                s0,
                i as nat,
                StateV { stack: stack@, frames: tframesv(frames@) },
            ),
        decreases s0.len() - i,
    {
        let ghost stpre = StateV { stack: stack@, frames: tframesv(frames@) };
        let ghost im: nat = i as nat;
        let loc = insts[i].loc.clone();
        match &insts[i].kind {
            InstructionKind::Push(v) => {
                match v {
                    Value::Int(_) => {
                        stack.push(ValType::Int);
                    },
                    Value::Char(_) => {
                        stack.push(ValType::Char);
                    },
                    Value::Bool(_) => {
                        stack.push(ValType::Bool);
                    },
                    Value::Ptr(_) => {
                        stack.push(ValType::Ptr);
                    },
                    Value::Str(_) => {
                        stack.push(ValType::Int);
                        stack.push(ValType::Ptr);
                    },
                }
                proof {
                    assert(stack@ =~= stpre.stack + push_cells(
                        s0[im as int].kind->Push_0,
                    ));
                    assert(tc_step(stpre, s0[im as int].kind, i) == Result::<StateV, TcErrV>::Ok(
                        StateV { stack: stack@, frames: tframesv(frames@) },
                    ));
                }
            },
            InstructionKind::Op(op) => {
                let op = *op;
                match apply_op(op, &mut stack) {
                    Result::Ok(()) => {
                        proof {
                            assert(tc_step(stpre, s0[im as int].kind, i) == Result::<
                                StateV,
                                TcErrV,
                            >::Ok(StateV { stack: stack@, frames: tframesv(frames@) }));
                        }
                    },
                    Result::Err(TcKind::Underflow) => {
                        proof {
                            assert(typecheck_seq(s0) == Result::<(), TcErrV>::Err(
                                TcErrV::StackUnderflow { ip: i },
                            ));
                        }
                        return Result::Err(mk_tc_fault(TypecheckError::StackUnderflow, i, loc));
                    },
                    Result::Err(TcKind::BadType) => {
                        proof {
                            assert(typecheck_seq(s0) == Result::<(), TcErrV>::Err(
                                TcErrV::InvalidTypeForOp { ip: i },
                            ));
                        }
                        let m = insts[i].kind.text();
                        return Result::Err(
                            mk_tc_fault(TypecheckError::InvalidTypeForOp(m), i, loc),
                        );
                    },
                }
            },
            InstructionKind::Intrinsic(intr) => {
                let intr = *intr;
                match apply_intrinsic(intr, &mut stack) {
                    Result::Ok(()) => {
                        proof {
                            assert(tc_step(stpre, s0[im as int].kind, i) == Result::<
                                StateV,
                                TcErrV,
                            >::Ok(StateV { stack: stack@, frames: tframesv(frames@) }));
                        }
                    },
                    Result::Err(TcKind::Underflow) => {
                        proof {
                            assert(typecheck_seq(s0) == Result::<(), TcErrV>::Err(
                                TcErrV::StackUnderflow { ip: i },
                            ));
                        }
                        return Result::Err(mk_tc_fault(TypecheckError::StackUnderflow, i, loc));
                    },
                    Result::Err(TcKind::BadType) => {
                        proof {
                            assert(typecheck_seq(s0) == Result::<(), TcErrV>::Err(
                                TcErrV::InvalidTypeForOp { ip: i },
                            ));
                        }
                        let m = insts[i].kind.text();
                        return Result::Err(
                            mk_tc_fault(TypecheckError::InvalidTypeForOp(m), i, loc),
                        );
                    },
                }
            },
            InstructionKind::Syscall(sc) => {
                let sc = *sc;
                match apply_syscall(sc, &mut stack) {
                    Result::Ok(()) => {
                        proof {
                            assert(tc_step(stpre, s0[im as int].kind, i) == Result::<
                                StateV,
                                TcErrV,
                            >::Ok(StateV { stack: stack@, frames: tframesv(frames@) }));
                        }
                    },
                    Result::Err(_) => {
                        proof {
                            assert(typecheck_seq(s0) == Result::<(), TcErrV>::Err(
                                TcErrV::StackUnderflow { ip: i },
                            ));
                        }
                        return Result::Err(mk_tc_fault(TypecheckError::StackUnderflow, i, loc));
                    },
                }
            },
            InstructionKind::Name(_) => {
                proof {
                    assert(typecheck_seq(s0) == Result::<(), TcErrV>::Err(
                        TcErrV::MacroInCode { ip: i },
                    ));
                }
                return Result::Err(mk_tc_fault(TypecheckError::MacroInCode, i, loc));
            },
            InstructionKind::Keyword(kw) => {
                let kw = *kw;
                match kw {
                    Keyword::While { .. } => {
                        let entry = clone_stack(&stack);
                        frames.push(TFrame::While { entry });
                        proof {
                            assert(tframesv(frames@) =~= stpre.frames.push(
                                TFrameV::While { entry: stpre.stack },
                            ));
                            assert(tc_step(stpre, s0[im as int].kind, i) == Result::<
                                StateV,
                                TcErrV,
                            >::Ok(StateV { stack: stack@, frames: tframesv(frames@) }));
                        }
                    },
                    Keyword::If => {
                        let entry = clone_stack(&stack);
                        frames.push(TFrame::If { entry });
                        proof {
                            assert(tframesv(frames@) =~= stpre.frames.push(
                                TFrameV::If { entry: stpre.stack },
                            ));
                            assert(tc_step(stpre, s0[im as int].kind, i) == Result::<
                                StateV,
                                TcErrV,
                            >::Ok(StateV { stack: stack@, frames: tframesv(frames@) }));
                        }
                    },
                    Keyword::Do { .. } => {
                        if stack.len() < 1 {
                            proof {
                                assert(typecheck_seq(s0) == Result::<(), TcErrV>::Err(
                                    TcErrV::StackUnderflow { ip: i },
                                ));
                            }
                            return Result::Err(
                                mk_tc_fault(TypecheckError::StackUnderflow, i, loc),
                            );
                        }
                        let top = stack[stack.len() - 1];
                        if top != ValType::Bool {
                            proof {
                                assert(typecheck_seq(s0) == Result::<(), TcErrV>::Err(
                                    TcErrV::InvalidTypeForOp { ip: i },
                                ));
                            }
                            let m = insts[i].kind.text();
                            return Result::Err(
                                mk_tc_fault(TypecheckError::InvalidTypeForOp(m), i, loc),
                            );
                        }
                        stack.pop();
                        proof {
                            if frames@.len() > 0 {
                                assert(tframesv(frames@).last() == frames@.last()@);
                            }
                        }
                        match frames.pop() {
                            None => {
                                proof {
                                    assert(typecheck_seq(s0) == Result::<(), TcErrV>::Err(
                                        TcErrV::InvalidLoop { ip: i },
                                    ));
                                }
                                return Result::Err(
                                    mk_tc_fault(TypecheckError::InvalidLoop, i, loc),
                                );
                            },
                            Some(fr) => {
                                proof {
                                    assert(tframesv(frames@) =~= stpre.frames.drop_last());
                                }
                                match fr {
                                    TFrame::While { entry } => {
                                        if !stacks_equal(&stack, &entry) {
                                            proof {
                                                assert(typecheck_seq(s0) == Result::<
                                                    (),
                                                    TcErrV,
                                                >::Err(TcErrV::InvalidLoop { ip: i }));
                                            }
                                            return Result::Err(
                                                mk_tc_fault(TypecheckError::InvalidLoop, i, loc),
                                            );
                                        }
                                        let branch = clone_stack(&stack);
                                        frames.push(
                                            TFrame::Do { branch, looping: true, chain: None },
                                        );
                                        proof {
                                            assert(tframesv(frames@) =~= stpre.frames.drop_last().push(
                                                TFrameV::Do {
                                                    branch: stack@,
                                                    looping: true,
                                                    chain: None,
                                                },
                                            ));
                                            assert(tc_step(stpre, s0[im as int].kind, i)
                                                == Result::<StateV, TcErrV>::Ok(
                                                StateV {
                                                    stack: stack@,
                                                    frames: tframesv(frames@),
                                                },
                                            ));
                                        }
                                    },
                                    TFrame::If { .. } => {
                                        let branch = clone_stack(&stack);
                                        frames.push(
                                            TFrame::Do { branch, looping: false, chain: None },
                                        );
                                        proof {
                                            assert(tframesv(frames@) =~= stpre.frames.drop_last().push(
                                                TFrameV::Do {
                                                    branch: stack@,
                                                    looping: false,
                                                    chain: None,
                                                },
                                            ));
                                            assert(tc_step(stpre, s0[im as int].kind, i)
                                                == Result::<StateV, TcErrV>::Ok(
                                                StateV {
                                                    stack: stack@,
                                                    frames: tframesv(frames@),
                                                },
                                            ));
                                        }
                                    },
                                    TFrame::Elif { chain, .. } => {
                                        let ghost chv = chain@;
                                        let branch = clone_stack(&stack);
                                        frames.push(
                                            TFrame::Do {
                                                branch,
                                                looping: false,
                                                chain: Some(chain),
                                            },
                                        );
                                        proof {
                                            assert(tframesv(frames@) =~= stpre.frames.drop_last().push(
                                                TFrameV::Do {
                                                    branch: stack@,
                                                    looping: false,
                                                    chain: Some(chv),
                                                },
                                            ));
                                            assert(tc_step(stpre, s0[im as int].kind, i)
                                                == Result::<StateV, TcErrV>::Ok(
                                                StateV {
                                                    stack: stack@,
                                                    frames: tframesv(frames@),
                                                },
                                            ));
                                        }
                                    },
                                    _ => {
                                        proof {
                                            assert(typecheck_seq(s0) == Result::<(), TcErrV>::Err(
                                                TcErrV::InvalidLoop { ip: i },
                                            ));
                                        }
                                        return Result::Err(
                                            mk_tc_fault(TypecheckError::InvalidLoop, i, loc),
                                        );
                                    },
                                }
                            },
                        }
                    },
                    Keyword::Elif { .. } => {
                        proof {
                            if frames@.len() > 0 {
                                assert(tframesv(frames@).last() == frames@.last()@);
                            }
                        }
                        match frames.pop() {
                            None => {
                                proof {
                                    assert(typecheck_seq(s0) == Result::<(), TcErrV>::Err(
                                        TcErrV::InvalidElse { ip: i },
                                    ));
                                }
                                return Result::Err(
                                    mk_tc_fault(TypecheckError::InvalidElse, i, loc),
                                );
                            },
                            Some(fr) => {
                                proof {
                                    assert(tframesv(frames@) =~= stpre.frames.drop_last());
                                }
                                match fr {
                                    TFrame::Do { branch, chain, .. } => {
                                        let chain_bad = match &chain {
                                            Some(c) => !stacks_equal(c, &stack),
                                            None => false,
                                        };
                                        if chain_bad {
                                            proof {
                                                assert(typecheck_seq(s0) == Result::<
                                                    (),
                                                    TcErrV,
                                                >::Err(TcErrV::InvalidEnd { ip: i }));
                                            }
                                            return Result::Err(
                                                mk_tc_fault(TypecheckError::InvalidEnd, i, loc),
                                            );
                                        }
                                        let exit = stack;
                                        let entry = clone_stack(&branch);
                                        stack = branch;
                                        frames.push(TFrame::Elif { entry, chain: exit });
                                        proof {
                                            assert(tframesv(frames@) =~= stpre.frames.drop_last().push(
                                                TFrameV::Elif {
                                                    entry: stack@,
                                                    chain: stpre.stack,
                                                },
                                            ));
                                            assert(tc_step(stpre, s0[im as int].kind, i)
                                                == Result::<StateV, TcErrV>::Ok(
                                                StateV {
                                                    stack: stack@,
                                                    frames: tframesv(frames@),
                                                },
                                            ));
                                        }
                                    },
                                    _ => {
                                        proof {
                                            assert(typecheck_seq(s0) == Result::<(), TcErrV>::Err(
                                                TcErrV::InvalidElse { ip: i },
                                            ));
                                        }
                                        return Result::Err(
                                            mk_tc_fault(TypecheckError::InvalidElse, i, loc),
                                        );
                                    },
                                }
                            },
                        }
                    },
                    Keyword::Else { .. } => {
                        proof {
                            if frames@.len() > 0 {
                                assert(tframesv(frames@).last() == frames@.last()@);
                            }
                        }
                        match frames.pop() {
                            None => {
                                proof {
                                    assert(typecheck_seq(s0) == Result::<(), TcErrV>::Err(
                                        TcErrV::InvalidElse { ip: i },
                                    ));
                                }
                                return Result::Err(
                                    mk_tc_fault(TypecheckError::InvalidElse, i, loc),
                                );
                            },
                            Some(fr) => {
                                proof {
                                    assert(tframesv(frames@) =~= stpre.frames.drop_last());
                                }
                                match fr {
                                    TFrame::Do { branch, chain, .. } => {
                                        let chain_bad = match &chain {
                                            Some(c) => !stacks_equal(c, &stack),
                                            None => false,
                                        };
                                        if chain_bad {
                                            proof {
                                                assert(typecheck_seq(s0) == Result::<
                                                    (),
                                                    TcErrV,
                                                >::Err(TcErrV::InvalidEnd { ip: i }));
                                            }
                                            return Result::Err(
                                                mk_tc_fault(TypecheckError::InvalidEnd, i, loc),
                                            );
                                        }
                                        let exit = stack;
                                        stack = branch;
                                        frames.push(TFrame::Else { exit });
                                        proof {
                                            assert(tframesv(frames@) =~= stpre.frames.drop_last().push(
                                                TFrameV::Else { exit: stpre.stack },
                                            ));
                                            assert(tc_step(stpre, s0[im as int].kind, i)
                                                == Result::<StateV, TcErrV>::Ok(
                                                StateV {
                                                    stack: stack@,
                                                    frames: tframesv(frames@),
                                                },
                                            ));
                                        }
                                    },
                                    _ => {
                                        proof {
                                            assert(typecheck_seq(s0) == Result::<(), TcErrV>::Err(
                                                TcErrV::InvalidElse { ip: i },
                                            ));
                                        }
                                        return Result::Err(
                                            mk_tc_fault(TypecheckError::InvalidElse, i, loc),
                                        );
                                    },
                                }
                            },
                        }
                    },
                    Keyword::End { .. } => {
                        proof {
                            if frames@.len() > 0 {
                                assert(tframesv(frames@).last() == frames@.last()@);
                            }
                        }
                        match frames.pop() {
                            None => {
                                proof {
                                    assert(typecheck_seq(s0) == Result::<(), TcErrV>::Err(
                                        TcErrV::InvalidEnd { ip: i },
                                    ));
                                }
                                return Result::Err(
                                    mk_tc_fault(TypecheckError::InvalidEnd, i, loc),
                                );
                            },
                            Some(fr) => {
                                proof {
                                    assert(tframesv(frames@) =~= stpre.frames.drop_last());
                                }
                                match fr {
                                    TFrame::Do { branch, chain, .. } => {
                                        if !stacks_equal(&stack, &branch) {
                                            proof {
                                                assert(typecheck_seq(s0) == Result::<
                                                    (),
                                                    TcErrV,
                                                >::Err(TcErrV::InvalidEnd { ip: i }));
                                            }
                                            return Result::Err(
                                                mk_tc_fault(TypecheckError::InvalidEnd, i, loc),
                                            );
                                        }
                                        let chain_bad = match &chain {
                                            Some(c) => !stacks_equal(c, &branch),
                                            None => false,
                                        };
                                        if chain_bad {
                                            proof {
                                                assert(typecheck_seq(s0) == Result::<
                                                    (),
                                                    TcErrV,
                                                >::Err(TcErrV::InvalidEnd { ip: i }));
                                            }
                                            return Result::Err(
                                                mk_tc_fault(TypecheckError::InvalidEnd, i, loc),
                                            );
                                        }
                                        proof {
                                            assert(tc_step(stpre, s0[im as int].kind, i)
                                                == Result::<StateV, TcErrV>::Ok(
                                                StateV {
                                                    stack: stack@,
                                                    frames: tframesv(frames@),
                                                },
                                            ));
                                        }
                                    },
                                    TFrame::Else { exit } => {
                                        if !stacks_equal(&stack, &exit) {
                                            proof {
                                                assert(typecheck_seq(s0) == Result::<
                                                    (),
                                                    TcErrV,
                                                >::Err(TcErrV::InvalidEnd { ip: i }));
                                            }
                                            return Result::Err(
                                                mk_tc_fault(TypecheckError::InvalidEnd, i, loc),
                                            );
                                        }
                                        proof {
                                            assert(tc_step(stpre, s0[im as int].kind, i)
                                                == Result::<StateV, TcErrV>::Ok(
                                                StateV {
                                                    stack: stack@,
                                                    frames: tframesv(frames@),
                                                },
                                            ));
                                        }
                                    },
                                    _ => {
                                        proof {
                                            assert(typecheck_seq(s0) == Result::<(), TcErrV>::Err(
                                                TcErrV::InvalidEnd { ip: i },
                                            ));
                                        }
                                        return Result::Err(
                                            mk_tc_fault(TypecheckError::InvalidEnd, i, loc),
                                        );
                                    },
                                }
                            },
                        }
                    },
                    Keyword::Macro => {
                        proof {
                            assert(typecheck_seq(s0) == Result::<(), TcErrV>::Err(
                                TcErrV::MacroInCode { ip: i },
                            ));
                        }
                        return Result::Err(mk_tc_fault(TypecheckError::MacroInCode, i, loc));
                    },
                    Keyword::Include => {
                        proof {
                            assert(typecheck_seq(s0) == Result::<(), TcErrV>::Err(
                                TcErrV::IncludeInCode { ip: i },
                            ));
                        }
                        return Result::Err(mk_tc_fault(TypecheckError::IncludeInCode, i, loc));
                    },
                }
            },
        }
        i = i + 1;
    }
    // end of program: the stack must be empty or a single Int exit code
    if stack.len() == 0 {
        return Result::Ok(());
    }
    if stack.len() == 1 {
        let only = stack[0];
        if only == ValType::Int {
            return Result::Ok(());
        }
    }
    proof {
        assert(typecheck_seq(s0) == Result::<(), TcErrV>::Err(TcErrV::InvalidStack));
    }
    if insts.len() > 0 {
        let loc = insts[insts.len() - 1].loc.clone();
        Result::Err(mk_tc_fault(TypecheckError::InvalidStack, insts.len(), loc))
    } else {
        let loc = Loc { file: String::new(), line: 0, col: 0 };
        Result::Err(mk_tc_fault(TypecheckError::InvalidStack, insts.len(), loc))
    }
}


/// Stack-neutrality of loop conditions: for any program the typechecker
/// accepts, the symbolic stack immediately before a `while`'s paired `do`
/// (after the condition, less the popped `Bool`) is exactly the stack
/// captured at the `while`, and the stack arriving at the loop's `end` —
/// the one that flows back to the `while` on the next iteration — is that
/// same stack. Here `st_do` is the state at the `do` (its top snapshot is
/// the `while`'s) and `st_end` the state at the matching `end` (its top
/// snapshot is the one the `do` pushed).
pub proof fn lemma_loop_condition_stack_neutral(
    st_do: StateV,
    kdo: InstructionKind,
    ip_do: usize,
    st_end: StateV,
    kend: InstructionKind,
    ip_end: usize,
)
    requires
        kdo matches InstructionKind::Keyword(Keyword::Do { .. }),
        kend matches InstructionKind::Keyword(Keyword::End { .. }),
        st_do.frames.len() > 0,
        st_do.frames.last() matches TFrameV::While { .. },
        tc_step(st_do, kdo, ip_do) is Ok,
        st_end.frames.len() > 0,
        st_end.frames.last() == tc_step(st_do, kdo, ip_do)->Ok_0.frames.last(),
        tc_step(st_end, kend, ip_end) is Ok,
    ensures
        tc_step(st_do, kdo, ip_do)->Ok_0.stack == st_do.frames.last()->While_entry,
        st_do.stack.drop_last() == st_do.frames.last()->While_entry,
        st_end.stack == st_do.frames.last()->While_entry,
        tc_step(st_end, kend, ip_end)->Ok_0.stack == st_do.frames.last()->While_entry,
{
}

/// Branch convergence within a chain: when the typechecker accepts an
/// `elif` or `else`, the arm just finished left the symbolic stack in
/// exactly the shape the chain's earlier arms recorded; a differing shape
/// is rejected. Here `st` is the state at the `elif`/`else` keyword, whose
/// top snapshot is the chain's `do` snapshot carrying a recorded exit.
pub proof fn lemma_arm_convergence(st: StateV, k: InstructionKind, ip: usize)
    requires
        k matches InstructionKind::Keyword(Keyword::Elif { .. }) || k matches InstructionKind::Keyword(
            Keyword::Else { .. },
        ),
        st.frames.len() > 0,
        st.frames.last() matches TFrameV::Do { chain: Some(c), .. },
        tc_step(st, k, ip) is Ok,
    ensures
        st.stack == st.frames.last()->Do_chain->0,
{
}

/// Branch convergence at the chain's `end`: when the typechecker accepts
/// an `end`, every path into it carries the same symbolic stack. With an
/// `else`-tagged snapshot the live stack (the `else` arm's exit) equals
/// the recorded exit of all earlier arms; with a `do`-tagged snapshot (an
/// `else`-less chain or a loop) the live stack equals the not-taken
/// path's shape, and any recorded arm exits equal it too.
pub proof fn lemma_end_convergence(st: StateV, k: InstructionKind, ip: usize)
    requires
        k matches InstructionKind::Keyword(Keyword::End { .. }),
        st.frames.len() > 0,
        tc_step(st, k, ip) is Ok,
    ensures
        st.frames.last() matches TFrameV::Else { exit } ==> st.stack == exit,
        st.frames.last() matches TFrameV::Do { branch, .. } ==> st.stack == branch,
        st.frames.last() matches TFrameV::Do { branch, chain: Some(c), .. } ==> c == branch,
{
}

} // verus!
