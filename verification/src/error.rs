//! Error kinds for every pipeline stage, and the located report each
//! failure is surfaced as.

use vstd::prelude::*;
use crate::instruction::Loc;

verus! {

/// Typechecker failures.
#[derive(Debug, Clone)]
pub enum TypecheckError {
    /// Too few operands on the symbolic stack for an operation.
    StackUnderflow,
    /// Wrong operand type(s) for the named operation.
    InvalidTypeForOp(String),
    /// The final stack is neither empty nor a single `Int` exit code.
    InvalidStack,
    /// An `include` instruction survived into typechecking.
    IncludeInCode,
    /// A `macro` or unexpanded macro reference survived into typechecking.
    MacroInCode,
    /// A control-flow join was reached with mismatched stack shapes, or an
    /// `end` popped an unexpected snapshot origin.
    InvalidEnd,
    /// An `else` or `elif` did not follow a conditional's `do`.
    InvalidElse,
    /// A loop condition was not stack-neutral, or a `do` had no snapshot.
    InvalidLoop,
}

/// Preprocessor failures.
#[derive(Debug, Clone)]
pub enum PreprocessorError {
    /// The `include` argument was not a string literal.
    InvalidInclude(String),
    /// An include path had no usable file name.
    InvalidFilename(String),
    /// No source was found for an include path.
    IncludeNotFound(String),
    /// Macro expansion did not reach a fixpoint within the pass cap.
    TooManyMacroExpansions,
    /// Include nesting exceeded the recursion depth cap.
    RecursiveInclude,
    /// A control keyword was found where another was required; the payload
    /// names the offending keyword and the one it was found following.
    UnexpectedKeyword(String),
    /// A macro's `end` appeared outside any macro definition.
    UnexpectedMacroEnd,
    /// End of input with a block still open; the payload names the still
    /// open keyword.
    UnclosedBlock(String),
}

/// Parser failures (the parser itself is an upstream collaborator; these
/// kinds are part of the shared error surface).
#[derive(Debug, Clone)]
pub enum ParseError {
    Incomplete,
    UnknownOperator,
    UnknownKeyword,
    UnexpectedToken(String),
}

/// Failures of the downstream native-code build.
#[derive(Debug, Clone)]
pub enum CompileError {
    NasmInvokeError(String),
    NasmCompileError,
    LdInvokeError(String),
    LdLinkError,
    UnexpectedToken(String),
}

/// Failures when invoking a built program.
#[derive(Debug, Clone)]
pub enum RunnerError {
    InvokeError(String),
    NonZeroStatus(usize),
}

/// File-system failures.
#[derive(Debug, Clone)]
pub enum IOError {
    Inherited(String),
    InvalidFilename,
    InvalidPath,
    NoFileExtension,
}

/// Failures of the reference interpreter.
#[derive(Debug, Clone)]
pub enum RuntimeError {
    IOError,
    StackUnderflow,
    StringCapacityExceeded,
    InvalidMemoryAccess,
    MacroNotExpanded,
    NameNotResolved,
    BufferOverflow,
}

/// The error-kind tag carried by every failure, grouped by stage.
#[derive(Debug, Clone)]
pub enum Error {
    CompileError(CompileError),
    ParseError(ParseError),
    PreprocessorError(PreprocessorError),
    RuntimeError(RuntimeError),
    RunnerError(RunnerError),
    TypecheckError(TypecheckError),
    IOError(IOError),
}

/// A located failure: the kind tag, the instruction pointer and source
/// location of the offending instruction, and, for binary-operand and
/// branch-mismatch failures, a secondary instruction pointer identifying
/// the other relevant instruction.
#[derive(Debug, Clone)]
pub struct Fault {
    pub error: Error,
    pub ip: usize,
    pub loc: Loc,
    pub secondary: Option<usize>,
}

/// The character for one decimal digit.
pub open spec fn digit_char(d: nat) -> char {
    if d == 0 {
        '0'
    } else if d == 1 {
        '1'
    } else if d == 2 {
        '2'
    } else if d == 3 {
        '3'
    } else if d == 4 {
        '4'
    } else if d == 5 {
        '5'
    } else if d == 6 {
        '6'
    } else if d == 7 {
        '7'
    } else if d == 8 {
        '8'
    } else {
        '9'
    }
}

/// The decimal rendering of a natural number.
pub open spec fn dec_of(n: nat) -> Seq<char>
    decreases n,
{
    if n < 10 {
        seq![digit_char(n)]
    } else {
        dec_of(n / 10) + seq![digit_char(n % 10)]
    }
}

fn digit_str(d: usize) -> (r: String)
    requires
        d < 10,
    ensures
        r@ == seq![digit_char(d as nat)],
{
    let r = if d == 0 {
        String::from_str("0")
    } else if d == 1 {
        String::from_str("1")
    } else if d == 2 {
        String::from_str("2")
    } else if d == 3 {
        String::from_str("3")
    } else if d == 4 {
        String::from_str("4")
    } else if d == 5 {
        String::from_str("5")
    } else if d == 6 {
        String::from_str("6")
    } else if d == 7 {
        String::from_str("7")
    } else if d == 8 {
        String::from_str("8")
    } else {
        String::from_str("9")
    };
    proof {
        reveal_strlit("0");
        reveal_strlit("1");
        reveal_strlit("2");
        reveal_strlit("3");
        reveal_strlit("4");
        reveal_strlit("5");
        reveal_strlit("6");
        reveal_strlit("7");
        reveal_strlit("8");
        reveal_strlit("9");
        assert(r@ =~= seq![digit_char(d as nat)]);
    }
    r
}

/// Render a number in decimal.
pub fn dec_str(n: usize) -> (r: String)
    ensures
        r@ == dec_of(n as nat),
    decreases n,
{
    let d = digit_str(n % 10);
    if n < 10 {
        proof {
            assert(dec_of(n as nat) =~= seq![digit_char(n as nat)]);
        }
        d
    } else {
        let r = dec_str(n / 10).concat(d.as_str());
        proof {
            assert(r@ =~= dec_of(n as nat));
        }
        r
    }
}

/// Render a 64-bit number in decimal.
pub fn dec_str64(n: u64) -> (r: String)
    ensures
        r@ == dec_of(n as nat),
    decreases n,
{
    let d = digit_str((n % 10) as usize);
    if n < 10 {
        proof {
            assert(dec_of(n as nat) =~= seq![digit_char(n as nat)]);
        }
        d
    } else {
        let r = dec_str64(n / 10).concat(d.as_str());
        proof {
            assert(r@ =~= dec_of(n as nat));
        }
        r
    }
}

/// Render a source location as `file:line:col`.
pub open spec fn loc_text(loc: Loc) -> Seq<char> {
    loc.file@ + ":"@ + dec_of(loc.line as nat) + ":"@ + dec_of(loc.col as nat)
}

/// The `file:line:col` rendering of a source location.
pub fn err_loc(loc: &Loc) -> (r: String)
    ensures
        r@ == loc_text(*loc),
{
    let mut r = loc.file.clone();
    r.append(":");
    r.append(dec_str(loc.line).as_str());
    r.append(":");
    r.append(dec_str(loc.col).as_str());
    proof {
        assert(r@ =~= loc_text(*loc));
    }
    r
}

/// The phrase naming a resolver frame in diagnostics.
pub open spec fn kw_text(kw: Seq<char>) -> Seq<char> {
    if kw == "whiledo"@ {
        "while ... do"@
    } else if kw == "ifdo"@ {
        "if ... do"@
    } else if kw == "elifdo"@ {
        "elif ... do"@
    } else {
        kw
    }
}

/// Expand the short frame tags to the phrases used in diagnostics.
pub fn kw_str(kw: &str) -> (r: &str)
    ensures
        r@ == kw_text(kw@),
{
    let k = kw.to_owned();
    if k == String::from_str("whiledo") {
        "while ... do"
    } else if k == String::from_str("ifdo") {
        "if ... do"
    } else if k == String::from_str("elifdo") {
        "elif ... do"
    } else {
        kw
    }
}

/// The message text of a `TypecheckError`.
pub open spec fn typecheck_error_text(e: TypecheckError) -> Seq<char> {
    match e {
        TypecheckError::StackUnderflow => "Stack Underflow"@,
        TypecheckError::InvalidTypeForOp(m) => "Invalid type for operation "@ + m@,
        TypecheckError::InvalidStack => "Unhandled items on stack"@,
        TypecheckError::IncludeInCode => "Include found in program"@,
        TypecheckError::MacroInCode => "Macro found in program"@,
        TypecheckError::InvalidEnd => "Invalid end encountered"@,
        TypecheckError::InvalidElse => "Invalid else encountered"@,
        TypecheckError::InvalidLoop => "Invalid loop encountered"@,
    }
}

impl TypecheckError {
    /// Render the message text.
    pub fn text(&self) -> (r: String)
        ensures
            r@ == typecheck_error_text(*self),
    {
        match self {
            TypecheckError::StackUnderflow => String::from_str("Stack Underflow"),
            TypecheckError::InvalidTypeForOp(m) => {
                let mut r = String::from_str("Invalid type for operation ");
                r.append(m.as_str());
                r
            },
            TypecheckError::InvalidStack => String::from_str("Unhandled items on stack"),
            TypecheckError::IncludeInCode => String::from_str("Include found in program"),
            TypecheckError::MacroInCode => String::from_str("Macro found in program"),
            TypecheckError::InvalidEnd => String::from_str("Invalid end encountered"),
            TypecheckError::InvalidElse => String::from_str("Invalid else encountered"),
            TypecheckError::InvalidLoop => String::from_str("Invalid loop encountered"),
        }
    }
}

/// The message text of a `PreprocessorError`.
pub open spec fn preprocessor_error_text(e: PreprocessorError) -> Seq<char> {
    match e {
        PreprocessorError::InvalidInclude(m) => "Invalid include "@ + m@,
        PreprocessorError::InvalidFilename(m) => "Invalid filename "@ + m@,
        PreprocessorError::IncludeNotFound(m) => "File not found "@ + m@,
        PreprocessorError::TooManyMacroExpansions => "Encountered recursive macro"@,
        PreprocessorError::RecursiveInclude => "Recursive include"@,
        PreprocessorError::UnexpectedKeyword(m) => "Unexpected keyword "@ + m@,
        PreprocessorError::UnexpectedMacroEnd => "Unexpected macro end"@,
        PreprocessorError::UnclosedBlock(m) => "Unclosed "@ + m@ + " block"@,
    }
}

impl PreprocessorError {
    /// Render the message text.
    pub fn text(&self) -> (r: String)
        ensures
            r@ == preprocessor_error_text(*self),
    {
        match self {
            PreprocessorError::InvalidInclude(m) => {
                let mut r = String::from_str("Invalid include ");
                r.append(m.as_str());
                r
            },
            PreprocessorError::InvalidFilename(m) => {
                let mut r = String::from_str("Invalid filename ");
                r.append(m.as_str());
                r
            },
            PreprocessorError::IncludeNotFound(m) => {
                let mut r = String::from_str("File not found ");
                r.append(m.as_str());
                r
            },
            PreprocessorError::TooManyMacroExpansions => String::from_str("Encountered recursive macro"),
            PreprocessorError::RecursiveInclude => String::from_str("Recursive include"),
            PreprocessorError::UnexpectedKeyword(m) => {
                let mut r = String::from_str("Unexpected keyword ");
                r.append(m.as_str());
                r
            },
            PreprocessorError::UnexpectedMacroEnd => String::from_str("Unexpected macro end"),
            PreprocessorError::UnclosedBlock(m) => {
                let mut r = String::from_str("Unclosed ");
                r.append(m.as_str());
                r.append(" block");
                r
            },
        }
    }
}

/// The message text of a `ParseError`.
pub open spec fn parse_error_text(e: ParseError) -> Seq<char> {
    match e {
        ParseError::Incomplete => "Failed to parse program"@,
        ParseError::UnknownOperator => "Unknown operator"@,
        ParseError::UnknownKeyword => "Unknown keyword"@,
        ParseError::UnexpectedToken(m) => "Unexpected token: "@ + m@,
    }
}

impl ParseError {
    /// Render the message text.
    pub fn text(&self) -> (r: String)
        ensures
            r@ == parse_error_text(*self),
    {
        match self {
            ParseError::Incomplete => String::from_str("Failed to parse program"),
            ParseError::UnknownOperator => String::from_str("Unknown operator"),
            ParseError::UnknownKeyword => String::from_str("Unknown keyword"),
            ParseError::UnexpectedToken(m) => {
                let mut r = String::from_str("Unexpected token: ");
                r.append(m.as_str());
                r
            },
        }
    }
}

/// The message text of a `CompileError`.
pub open spec fn compile_error_text(e: CompileError) -> Seq<char> {
    match e {
        CompileError::NasmInvokeError(m) => "Nasm invoke error: "@ + m@,
        CompileError::NasmCompileError => "Nasm compile error"@,
        CompileError::LdInvokeError(m) => "Ld invoke error: "@ + m@,
        CompileError::LdLinkError => "Ld linker error"@,
        CompileError::UnexpectedToken(m) => "Unexpected token: "@ + m@,
    }
}

impl CompileError {
    /// Render the message text.
    pub fn text(&self) -> (r: String)
        ensures
            r@ == compile_error_text(*self),
    {
        match self {
            CompileError::NasmInvokeError(m) => {
                let mut r = String::from_str("Nasm invoke error: ");
                r.append(m.as_str());
                r
            },
            CompileError::NasmCompileError => String::from_str("Nasm compile error"),
            CompileError::LdInvokeError(m) => {
                let mut r = String::from_str("Ld invoke error: ");
                r.append(m.as_str());
                r
            },
            CompileError::LdLinkError => String::from_str("Ld linker error"),
            CompileError::UnexpectedToken(m) => {
                let mut r = String::from_str("Unexpected token: ");
                r.append(m.as_str());
                r
            },
        }
    }
}

/// The message text of a `RunnerError`.
pub open spec fn runner_error_text(e: RunnerError) -> Seq<char> {
    match e {
        RunnerError::InvokeError(m) => "Failed to invoke program: "@ + m@,
        RunnerError::NonZeroStatus(n) => "Program exited with non-zero status: "@ + dec_of(n as nat),
    }
}

impl RunnerError {
    /// Render the message text.
    pub fn text(&self) -> (r: String)
        ensures
            r@ == runner_error_text(*self),
    {
        match self {
            RunnerError::InvokeError(m) => {
                let mut r = String::from_str("Failed to invoke program: ");
                r.append(m.as_str());
                r
            },
            RunnerError::NonZeroStatus(n) => {
                let mut r = String::from_str("Program exited with non-zero status: ");
                r.append(dec_str(*n).as_str());
                r
            },
        }
    }
}

/// The message text of a `IOError`.
pub open spec fn i_o_error_text(e: IOError) -> Seq<char> {
    match e {
        IOError::Inherited(m) => m@,
        IOError::InvalidFilename => "Invalid filename"@,
        IOError::InvalidPath => "Invalid path"@,
        IOError::NoFileExtension => "No file extension"@,
    }
}

impl IOError {
    /// Render the message text.
    pub fn text(&self) -> (r: String)
        ensures
            r@ == i_o_error_text(*self),
    {
        match self {
            IOError::Inherited(m) => m.clone(),
            IOError::InvalidFilename => String::from_str("Invalid filename"),
            IOError::InvalidPath => String::from_str("Invalid path"),
            IOError::NoFileExtension => String::from_str("No file extension"),
        }
    }
}

/// The message text of a `RuntimeError`.
pub open spec fn runtime_error_text(e: RuntimeError) -> Seq<char> {
    match e {
        RuntimeError::IOError => "IO Error"@,
        RuntimeError::StackUnderflow => "Stack underflow"@,
        RuntimeError::StringCapacityExceeded => "String capacity exceeded"@,
        RuntimeError::InvalidMemoryAccess => "Invalid memory access"@,
        RuntimeError::MacroNotExpanded => "Macro not expanded"@,
        RuntimeError::NameNotResolved => "Name not resolved"@,
        RuntimeError::BufferOverflow => "Buffer overflow"@,
    }
}

impl RuntimeError {
    /// Render the message text.
    pub fn text(&self) -> (r: String)
        ensures
            r@ == runtime_error_text(*self),
    {
        match self {
            RuntimeError::IOError => String::from_str("IO Error"),
            RuntimeError::StackUnderflow => String::from_str("Stack underflow"),
            RuntimeError::StringCapacityExceeded => String::from_str("String capacity exceeded"),
            RuntimeError::InvalidMemoryAccess => String::from_str("Invalid memory access"),
            RuntimeError::MacroNotExpanded => String::from_str("Macro not expanded"),
            RuntimeError::NameNotResolved => String::from_str("Name not resolved"),
            RuntimeError::BufferOverflow => String::from_str("Buffer overflow"),
        }
    }
}

/// The message text of an [`Error`], prefixed with its stage tag.
pub open spec fn error_text(e: Error) -> Seq<char> {
    match e {
        Error::CompileError(i) => "[Compile Error] "@ + compile_error_text(i),
        Error::ParseError(i) => "[Parse Error] "@ + parse_error_text(i),
        Error::PreprocessorError(i) => "[Preprocessor Error] "@ + preprocessor_error_text(i),
        Error::RuntimeError(i) => "[Runtime Error] "@ + runtime_error_text(i),
        Error::RunnerError(i) => "[Runner Error] "@ + runner_error_text(i),
        Error::TypecheckError(i) => "[Typecheck Error] "@ + typecheck_error_text(i),
        Error::IOError(i) => "[IO Error] "@ + i_o_error_text(i),
    }
}

impl Error {
    /// Render the message text, prefixed with the failing stage.
    pub fn text(&self) -> (r: String)
        ensures
            r@ == error_text(*self),
    {
        let (prefix, inner) = match self {
            Error::CompileError(i) => ("[Compile Error] ", i.text()),
            Error::ParseError(i) => ("[Parse Error] ", i.text()),
            Error::PreprocessorError(i) => ("[Preprocessor Error] ", i.text()),
            Error::RuntimeError(i) => ("[Runtime Error] ", i.text()),
            Error::RunnerError(i) => ("[Runner Error] ", i.text()),
            Error::TypecheckError(i) => ("[Typecheck Error] ", i.text()),
            Error::IOError(i) => ("[IO Error] ", i.text()),
        };
        let mut r = prefix.to_owned();
        r.append(inner.as_str());
        r
    }
}

/// The full rendering of a located failure: the source location in
/// brackets, then the stage-tagged message.
pub open spec fn fault_text(f: Fault) -> Seq<char> {
    "["@ + loc_text(f.loc) + "] "@ + error_text(f.error)
}

impl Fault {
    /// Render the failure as `[file:line:col] [Stage] message`.
    pub fn message(&self) -> (r: String)
        ensures
            r@ == fault_text(*self),
    {
        let mut r = String::from_str("[");
        r.append(err_loc(&self.loc).as_str());
        r.append("] ");
        r.append(self.error.text().as_str());
        proof {
            assert(r@ =~= fault_text(*self));
        }
        r
    }
}


/// The marker set before one token of a source spread: the faulting
/// instruction is pointed out, and the other relevant instruction (the
/// mismatched branch, the loop head) gets a smaller mark.
pub open spec fn spread_marker(j: int, ip: int, secondary: Option<usize>) -> Seq<char> {
    if j == ip {
        ">>> "@
    } else if secondary matches Some(k) && j == k as int {
        ">> "@
    } else {
        Seq::empty()
    }
}

/// The rendering of the window `[start, end)` of the instruction array,
/// tokens joined by single spaces, with the fault and secondary markers.
pub open spec fn spread_text(
    s: Seq<crate::instruction::Instruction>,
    start: int,
    end: int,
    ip: int,
    secondary: Option<usize>,
) -> Seq<char>
    decreases end - start,
{
    if start >= end {
        Seq::empty()
    } else if start == end - 1 {
        spread_marker(end - 1, ip, secondary) + crate::instruction::kind_text(s[end - 1].kind)
    } else {
        spread_text(s, start, end - 1, ip, secondary) + " "@ + spread_marker(end - 1, ip, secondary)
            + crate::instruction::kind_text(s[end - 1].kind)
    }
}

/// The window the spread shows: six instructions of context on either
/// side of the fault, widened to reach back to the secondary position
/// when one precedes the fault.
pub open spec fn spread_len(ip: int, secondary: Option<usize>) -> int {
    match secondary {
        Some(k) => if ip > k as int {
            ip - k + 1
        } else {
            6
        },
        None => 6,
    }
}

/// Render the stretch of the instruction array around a fault, the
/// offending instruction marked `>>>` and the other relevant instruction
/// (if any) marked `>>`.
pub fn err_spread(
    program: &Vec<crate::instruction::Instruction>,
    ip: usize,
    secondary: Option<usize>,
) -> (r: String)
    requires
        ip < program@.len(),
        spread_len(ip as int, secondary) + ip <= usize::MAX,
    ensures
        ({
            let n = spread_len(ip as int, secondary);
            let start = if n > ip as int {
                0
            } else {
                ip - n
            };
            let end = if ip + n > program@.len() {
                program@.len() as int
            } else {
                ip + n
            };
            r@ == spread_text(program@, start, end, ip as int, secondary)
        }),
{
    let n: usize = match secondary {
        Some(k) if ip > k => ip - k + 1,
        _ => 6,
    };
    let start: usize = if n > ip {
        0
    } else {
        ip - n
    };
    let end: usize = if ip + n > program.len() {
        program.len()
    } else {
        ip + n
    };
    let mut r = String::new();
    let mut j: usize = start;
    proof {
        assert(r@ =~= spread_text(program@, start as int, start as int, ip as int, secondary));
    }
    while j < end
        invariant
            start <= j <= end,
            end <= program@.len(),
            r@ == spread_text(program@, start as int, j as int, ip as int, secondary),
        decreases end - j,
    {
        if j > start {
            r.append(" ");
        }
        if j == ip {
            r.append(">>> ");
        } else {
            let is_secondary = match secondary {
                Some(k) => j == k,
                None => false,
            };
            if is_secondary {
                r.append(">> ");
            }
        }
        r.append(program[j].kind.text().as_str());
        j = j + 1;
        proof {
            assert(r@ =~= spread_text(program@, start as int, j as int, ip as int, secondary));
        }
    }
    r
}

} // verus!
