//! The flat instruction array and its tagged payloads, including the
//! backpatchable jump-target slots written by the control-flow resolver.

use vstd::prelude::*;
use crate::error::dec_of;

verus! {

/// A source position: file name, line and column.
#[derive(Debug)]
pub struct Loc {
    pub file: String,
    pub line: usize,
    pub col: usize,
}

impl Clone for Loc {
    fn clone(&self) -> (r: Self)
        ensures
            r == *self,
    {
        Loc { file: self.file.clone(), line: self.line, col: self.col }
    }
}

/// A literal pushed onto the runtime stack. A string literal pushes two
/// cells (byte length, then data pointer), which the typechecker models as
/// an `Int` followed by a `Ptr`.
#[derive(Debug)]
pub enum Value {
    Int(i64),
    Str(String),
    Char(u8),
    Bool(bool),
    Ptr(String),
}

impl Clone for Value {
    fn clone(&self) -> (r: Self)
        ensures
            r == *self,
    {
        match self {
            Value::Int(i) => Value::Int(*i),
            Value::Str(s) => Value::Str(s.clone()),
            Value::Char(c) => Value::Char(*c),
            Value::Bool(b) => Value::Bool(*b),
            Value::Ptr(s) => Value::Ptr(s.clone()),
        }
    }
}

/// Arithmetic, comparison and memory-access primitives.
#[derive(Debug, Clone, Copy, PartialEq, Eq, Structural)]
pub enum Op {
    Add,
    Sub,
    Mul,
    Div,
    DivMod,
    BitwiseAnd,
    BitwiseOr,
    BitwiseXor,
    BitwiseNot,
    Shl,
    Shr,
    Eq,
    Neq,
    Lt,
    Gt,
    Lte,
    Gte,
    Store,
    Load,
    Load64,
    Store64,
    Mod,
}

/// Stack-shuffle and environment primitives.
#[derive(Debug, Clone, Copy, PartialEq, Eq, Structural)]
pub enum Intrinsic {
    Print,
    Panic,
    Dup,
    Dup2,
    Swap,
    Mem,
    Drop,
    Drop2,
    Over,
    Argc,
    Argv,
    CastPtr,
    CastInt,
    Here,
}

/// Structured-control keywords. Every jump slot is `None` (unresolved) at
/// parse time and written by the control-flow resolver during its single
/// forward pass; `End::loop_back_target` stays `None` when the `end`
/// closes an `if`/`elif`/`else` chain rather than a loop.
#[derive(Debug, Clone, Copy, PartialEq, Eq, Structural)]
pub enum Keyword {
    While { self_ip: Option<usize> },
    Do { false_target: Option<usize> },
    If,
    Elif { self_ip: Option<usize>, converge_target: Option<usize> },
    Else { self_ip: Option<usize>, converge_target: Option<usize> },
    End { self_ip: Option<usize>, loop_back_target: Option<usize> },
    Macro,
    Include,
}

/// Arity of a raw system call: how many cells it pops besides the syscall
/// number.
#[derive(Debug, Clone, Copy, PartialEq, Eq, Structural)]
pub enum SyscallKind {
    Syscall0,
    Syscall1,
    Syscall2,
    Syscall3,
    Syscall4,
    Syscall5,
    Syscall6,
}

/// The tagged payload of one instruction. `Name` is an unresolved macro
/// reference and must not survive past macro expansion.
#[derive(Debug)]
pub enum InstructionKind {
    Push(Value),
    Intrinsic(Intrinsic),
    Op(Op),
    Keyword(Keyword),
    Name(String),
    Syscall(SyscallKind),
}

impl Clone for InstructionKind {
    fn clone(&self) -> (r: Self)
        ensures
            r == *self,
    {
        match self {
            InstructionKind::Push(v) => InstructionKind::Push(v.clone()),
            InstructionKind::Intrinsic(i) => InstructionKind::Intrinsic(*i),
            InstructionKind::Op(o) => InstructionKind::Op(*o),
            InstructionKind::Keyword(k) => InstructionKind::Keyword(*k),
            InstructionKind::Name(n) => InstructionKind::Name(n.clone()),
            InstructionKind::Syscall(s) => InstructionKind::Syscall(*s),
        }
    }
}

/// One element of the program's flat instruction sequence: its payload, its
/// source location, and its stable index (instruction pointer), assigned
/// once after all expansion completes.
#[derive(Debug)]
pub struct Instruction {
    pub kind: InstructionKind,
    pub loc: Loc,
    pub ip: usize,
}

impl Clone for Instruction {
    fn clone(&self) -> (r: Self)
        ensures
            r == *self,
    {
        Instruction { kind: self.kind.clone(), loc: self.loc.clone(), ip: self.ip }
    }
}

impl Instruction {
    pub fn new(kind: InstructionKind, loc: Loc) -> (r: Instruction)
        ensures
            r.kind == kind,
            r.loc == loc,
            r.ip == 0,
    {
        Instruction { kind, loc, ip: 0 }
    }
}

/// Copy a whole instruction sequence.
pub fn clone_instructions(v: &Vec<Instruction>) -> (r: Vec<Instruction>)
    ensures
        r@ == v@,
{
    let mut r: Vec<Instruction> = Vec::new();
    let mut i: usize = 0;
    while i < v.len()
        invariant
            i <= v.len(),
            r@ == v@.take(i as int),
        decreases v.len() - i,
    {
        r.push(v[i].clone());
        i = i + 1;
        proof {
            assert(r@ =~= v@.take(i as int));
        }
    }
    proof {
        assert(r@ =~= v@);
    }
    r
}

/// The span of array indices (`macro` keyword to its `end`) a macro
/// definition was collected from.
#[derive(Debug, Clone, Copy, PartialEq, Eq, Structural)]
pub struct MacroSpan {
    pub start: usize,
    pub end: usize,
}

/// A named, unexpanded instruction subsequence plus its defining span.
/// Never mutated after collection.
#[derive(Debug)]
pub struct Macro {
    pub name: String,
    pub body: Vec<Instruction>,
    pub loc: MacroSpan,
}

impl Clone for Macro {
    fn clone(&self) -> (r: Self)
        ensures
            r.name == self.name,
            r.body@ == self.body@,
            r.loc == self.loc,
    {
        Macro { name: self.name.clone(), body: clone_instructions(&self.body), loc: self.loc }
    }
}

/// A whole program: the instruction array, the collected macros, the
/// program's name, and the base directory against which relative includes
/// are resolved.
#[derive(Debug)]
pub struct Program {
    pub name: String,
    pub base_path: String,
    pub instructions: Vec<Instruction>,
    pub macros: Vec<Macro>,
}

impl Program {
    /// The macro table keeps at most one entry per name.
    pub open spec fn macros_wf(self) -> bool {
        forall|i: int, j: int|
            0 <= i < j < self.macros@.len() ==> self.macros@[i].name@ != self.macros@[j].name@
    }
}

/// The display text of an arithmetic or memory primitive.
pub open spec fn op_text(op: Op) -> Seq<char> {
    match op {
        Op::Add => "+"@,
        Op::Sub => "-"@,
        Op::Mul => "*"@,
        Op::Div => "/"@,
        Op::Mod => "mod"@,
        Op::DivMod => "divmod"@,
        Op::BitwiseAnd => "band"@,
        Op::BitwiseOr => "bor"@,
        Op::BitwiseXor => "bxor"@,
        Op::BitwiseNot => "~"@,
        Op::Shl => "shl"@,
        Op::Shr => "shr"@,
        Op::Eq => "="@,
        Op::Neq => "!="@,
        Op::Lt => "<"@,
        Op::Gt => ">"@,
        Op::Lte => "<="@,
        Op::Gte => ">="@,
        Op::Store => "."@,
        Op::Load => ","@,
        Op::Load64 => ",64"@,
        Op::Store64 => ".64"@,
    }
}

impl Op {
    /// The display text of the operator.
    pub fn text(&self) -> (r: String)
        ensures
            r@ == op_text(*self),
    {
        match self {
            Op::Add => String::from_str("+"),
            Op::Sub => String::from_str("-"),
            Op::Mul => String::from_str("*"),
            Op::Div => String::from_str("/"),
            Op::Mod => String::from_str("mod"),
            Op::DivMod => String::from_str("divmod"),
            Op::BitwiseAnd => String::from_str("band"),
            Op::BitwiseOr => String::from_str("bor"),
            Op::BitwiseXor => String::from_str("bxor"),
            Op::BitwiseNot => String::from_str("~"),
            Op::Shl => String::from_str("shl"),
            Op::Shr => String::from_str("shr"),
            Op::Eq => String::from_str("="),
            Op::Neq => String::from_str("!="),
            Op::Lt => String::from_str("<"),
            Op::Gt => String::from_str(">"),
            Op::Lte => String::from_str("<="),
            Op::Gte => String::from_str(">="),
            Op::Store => String::from_str("."),
            Op::Load => String::from_str(","),
            Op::Load64 => String::from_str(",64"),
            Op::Store64 => String::from_str(".64"),
        }
    }
}

/// The display text of a control keyword.
pub open spec fn keyword_text(kw: Keyword) -> Seq<char> {
    match kw {
        Keyword::While { .. } => "while"@,
        Keyword::Do { .. } => "do"@,
        Keyword::If => "if"@,
        Keyword::Elif { .. } => "elif"@,
        Keyword::Else { .. } => "else"@,
        Keyword::End { .. } => "end"@,
        Keyword::Macro => "macro"@,
        Keyword::Include => "include"@,
    }
}

impl Keyword {
    /// The display text of the keyword.
    pub fn text(&self) -> (r: String)
        ensures
            r@ == keyword_text(*self),
    {
        match self {
            Keyword::While { .. } => String::from_str("while"),
            Keyword::Do { .. } => String::from_str("do"),
            Keyword::If => String::from_str("if"),
            Keyword::Elif { .. } => String::from_str("elif"),
            Keyword::Else { .. } => String::from_str("else"),
            Keyword::End { .. } => String::from_str("end"),
            Keyword::Macro => String::from_str("macro"),
            Keyword::Include => String::from_str("include"),
        }
    }
}

/// The display text of a syscall arity.
pub open spec fn syscall_text(s: SyscallKind) -> Seq<char> {
    match s {
        SyscallKind::Syscall0 => "syscall0"@,
        SyscallKind::Syscall1 => "syscall1"@,
        SyscallKind::Syscall2 => "syscall2"@,
        SyscallKind::Syscall3 => "syscall3"@,
        SyscallKind::Syscall4 => "syscall4"@,
        SyscallKind::Syscall5 => "syscall5"@,
        SyscallKind::Syscall6 => "syscall6"@,
    }
}

impl SyscallKind {
    /// The display text of the syscall arity.
    pub fn text(&self) -> (r: String)
        ensures
            r@ == syscall_text(*self),
    {
        match self {
            SyscallKind::Syscall0 => String::from_str("syscall0"),
            SyscallKind::Syscall1 => String::from_str("syscall1"),
            SyscallKind::Syscall2 => String::from_str("syscall2"),
            SyscallKind::Syscall3 => String::from_str("syscall3"),
            SyscallKind::Syscall4 => String::from_str("syscall4"),
            SyscallKind::Syscall5 => String::from_str("syscall5"),
            SyscallKind::Syscall6 => String::from_str("syscall6"),
        }
    }
}

/// The display text of an intrinsic.
pub open spec fn intrinsic_text(i: Intrinsic) -> Seq<char> {
    match i {
        Intrinsic::Print => "print"@,
        Intrinsic::Panic => "panic"@,
        Intrinsic::Dup => "dup"@,
        Intrinsic::Dup2 => "2dup"@,
        Intrinsic::Swap => "swap"@,
        Intrinsic::Mem => "mem"@,
        Intrinsic::Drop => "drop"@,
        Intrinsic::Drop2 => "2drop"@,
        Intrinsic::Over => "over"@,
        Intrinsic::Argc => "argc"@,
        Intrinsic::Argv => "argv"@,
        Intrinsic::CastPtr => "cast(ptr)"@,
        Intrinsic::CastInt => "cast(int)"@,
        Intrinsic::Here => "here"@,
    }
}

impl Intrinsic {
    /// The display text of the intrinsic.
    pub fn text(&self) -> (r: String)
        ensures
            r@ == intrinsic_text(*self),
    {
        match self {
            Intrinsic::Print => String::from_str("print"),
            Intrinsic::Panic => String::from_str("panic"),
            Intrinsic::Dup => String::from_str("dup"),
            Intrinsic::Dup2 => String::from_str("2dup"),
            Intrinsic::Swap => String::from_str("swap"),
            Intrinsic::Mem => String::from_str("mem"),
            Intrinsic::Drop => String::from_str("drop"),
            Intrinsic::Drop2 => String::from_str("2drop"),
            Intrinsic::Over => String::from_str("over"),
            Intrinsic::Argc => String::from_str("argc"),
            Intrinsic::Argv => String::from_str("argv"),
            Intrinsic::CastPtr => String::from_str("cast(ptr)"),
            Intrinsic::CastInt => String::from_str("cast(int)"),
            Intrinsic::Here => String::from_str("here"),
        }
    }
}

/// The decimal rendering of a signed integer.
pub open spec fn int_text(i: int) -> Seq<char> {
    if i < 0 {
        "-"@ + dec_of((-i) as nat)
    } else {
        dec_of(i as nat)
    }
}

/// Render a signed 64-bit integer in decimal.
pub fn int_str(i: i64) -> (r: String)
    ensures
        r@ == int_text(i as int),
{
    if i < 0 {
        // compute the magnitude without overflowing on i64::MIN
        let m: u64 = ((-(i + 1)) as u64) + 1;
        let mut r = String::from_str("-");
        r.append(crate::error::dec_str64(m).as_str());
        proof {
            assert(r@ =~= int_text(i as int));
        }
        r
    } else {
        crate::error::dec_str64(i as u64)
    }
}

/// The display text of a pushed literal.
pub open spec fn value_text(v: Value) -> Seq<char> {
    match v {
        Value::Int(i) => int_text(i as int),
        Value::Str(s) => s@,
        Value::Char(c) => dec_of(c as nat),
        Value::Bool(b) => if b {
            "true"@
        } else {
            "false"@
        },
        Value::Ptr(s) => s@,
    }
}

impl Value {
    /// The display text of the literal.
    pub fn text(&self) -> (r: String)
        ensures
            r@ == value_text(*self),
    {
        match self {
            Value::Int(i) => int_str(*i),
            Value::Str(s) => s.clone(),
            Value::Char(c) => crate::error::dec_str64(*c as u64),
            Value::Bool(b) => if *b {
                String::from_str("true")
            } else {
                String::from_str("false")
            },
            Value::Ptr(s) => s.clone(),
        }
    }
}

/// The display text of an instruction payload; string and char literals are
/// shown quoted.
pub open spec fn kind_text(k: InstructionKind) -> Seq<char> {
    match k {
        InstructionKind::Push(Value::Str(s)) => "\""@ + s@ + "\""@,
        InstructionKind::Push(Value::Char(c)) => "'"@ + dec_of(c as nat) + "'"@,
        InstructionKind::Push(v) => value_text(v),
        InstructionKind::Intrinsic(i) => intrinsic_text(i),
        InstructionKind::Op(o) => op_text(o),
        InstructionKind::Keyword(kw) => keyword_text(kw),
        InstructionKind::Name(n) => n@,
        InstructionKind::Syscall(s) => syscall_text(s),
    }
}

impl InstructionKind {
    /// The display text of the payload.
    pub fn text(&self) -> (r: String)
        ensures
            r@ == kind_text(*self),
    {
        match self {
            InstructionKind::Push(Value::Str(s)) => {
                let mut r = String::from_str("\"");
                r.append(s.as_str());
                r.append("\"");
                proof {
                    assert(r@ =~= kind_text(*self));
                }
                r
            },
            InstructionKind::Push(Value::Char(c)) => {
                let mut r = String::from_str("'");
                r.append(crate::error::dec_str64(*c as u64).as_str());
                r.append("'");
                proof {
                    assert(r@ =~= kind_text(*self));
                }
                r
            },
            InstructionKind::Push(v) => v.text(),
            InstructionKind::Intrinsic(i) => i.text(),
            InstructionKind::Op(o) => o.text(),
            InstructionKind::Keyword(kw) => kw.text(),
            InstructionKind::Name(n) => n.clone(),
            InstructionKind::Syscall(s) => s.text(),
        }
    }
}

} // verus!
