//! A tick-driven interpreter for the small programs the windows run. One
//! call of `tick` executes at most one statement, so a window's program can
//! be multiplexed with its neighbours' one statement at a time. A statement
//! asking for input does not block: `tick` reports `AwaitInput` and retries
//! the same statement once a line has been queued with `provide_input`.
//!
//! Statements are `name := expr`, `print(expr)`, `while expr { ... }` and
//! `if expr { ... } else { ... }`. An expression is an integer, a quoted
//! string, `true`, `false`, a variable, `input("prompt")`, `not e`, `-e`, or
//! a parenthesised pair `(a op b)` with `+ - * / == < >`. Input lines are
//! strings; arithmetic coerces a string of digits to its number. Any lexical
//! or runtime fault halts the program quietly.

use vstd::prelude::*;
use crate::storage::bytes_eq;
use crate::storage::bytes_clone;

verus! {

/// One lexical token of a program.
enum Tok {
    Ident(Vec<u8>),
    IntLit(i64),
    StrLit(Vec<u8>),
    Assign,
    LParen,
    RParen,
    LBrace,
    RBrace,
    Plus,
    Minus,
    Star,
    Slash,
    EqEq,
    Lt,
    Gt,
    Not,
    True,
    False,
    While,
    If,
    Else,
    Print,
    Input,
}

/// A run-time value.
enum Value {
    IntV(i64),
    StrV(Vec<u8>),
    BoolV(bool),
}

/// A block the program has entered and not yet left.
enum Frame {
    /// A `while` body; the field is the token index of the `while` itself.
    Loop(usize),
    /// A taken `if` branch: on leaving it, an `else` block is skipped.
    Then,
    /// An `else` branch.
    Else,
}

/// One variable and its current value.
struct Binding {
    name: Vec<u8>,
    val: Value,
}

/// What one call of `tick` did.
#[derive(PartialEq, Eq)]
pub enum TickResult {
    /// A statement ran with no visible effect.
    Continuing,
    /// A `print` ran; the line to show.
    Printed(Vec<u8>),
    /// The program is over, well or badly.
    Finished,
    /// The program wants a line of input before it can go on.
    AwaitInput,
}

/// Why an expression did not produce a value.
enum EvalStop {
    /// An `input(...)` found no queued line.
    NeedInput,
    /// A fault: bad syntax, an unknown name, overflow, division by zero.
    Fault,
}

/// A run-time value at the specification level.
enum ValView {
    Int(int),
    Str(Seq<u8>),
    Bool(bool),
}

/// The value a `Value` stands for.
spec fn val_view(v: Value) -> ValView {
    match v {
        Value::IntV(n) => ValView::Int(n as int),
        Value::StrV(s) => ValView::Str(s@),
        Value::BoolV(b) => ValView::Bool(b),
    }
}

/// A signed number as it fits the interpreter's word, or nothing.
spec fn fit_i64(x: int) -> Option<int> {
    if i64::MIN <= x <= i64::MAX {
        Some(x)
    } else {
        None
    }
}

/// The digits of `s` from `i` on, folded onto `acc` with the same
/// one-step overflow checks the runtime makes.
spec fn parse_digits_spec(s: Seq<u8>, i: int, neg: bool, acc: int) -> Option<int>
    decreases s.len() - i,
{
    if i >= s.len() {
        Some(acc)
    } else if !(0x30 <= s[i] <= 0x39) {
        None
    } else {
        let d = s[i] - 0x30;
        match fit_i64(acc * 10) {
            None => None,
            Some(a10) => {
                let step = if neg {
                    a10 - d
                } else {
                    a10 + d
                };
                match fit_i64(step) {
                    None => None,
                    Some(a2) => parse_digits_spec(s, i + 1, neg, a2),
                }
            },
        }
    }
}

/// A whole byte string as a decimal number with an optional leading minus.
spec fn parse_int_spec(s: Seq<u8>) -> Option<int> {
    if s.len() == 0 {
        None
    } else if s[0] == 0x2d {
        if s.len() == 1 {
            None
        } else {
            parse_digits_spec(s, 1, true, 0)
        }
    } else {
        parse_digits_spec(s, 0, false, 0)
    }
}

/// A value as a number: a number itself, or a string of digits.
spec fn to_int_spec(v: ValView) -> Option<int> {
    match v {
        ValView::Int(n) => Some(n),
        ValView::Str(s) => parse_int_spec(s),
        ValView::Bool(_) => None,
    }
}

/// Signed division as the runtime rounds it: toward zero, refused on a
/// zero divisor or when the quotient leaves the word.
spec fn div_spec(a: int, b: int) -> Option<int> {
    if b == 0 {
        None
    } else {
        let q = if a == 0 {
            0
        } else if a > 0 && b > 0 {
            a / b
        } else if a < 0 && b < 0 {
            (a * -1) / (b * -1)
        } else if a < 0 {
            ((a * -1) / b) * -1
        } else {
            (a / (b * -1)) * -1
        };
        fit_i64(q)
    }
}

/// The operator codes the evaluator dispatches on.
spec fn op_code(t: Tok) -> int {
    match t {
        Tok::Plus => 0,
        Tok::Minus => 1,
        Tok::Star => 2,
        Tok::Slash => 3,
        Tok::EqEq => 4,
        Tok::Lt => 5,
        Tok::Gt => 6,
        _ => 7,
    }
}

/// What a binary operator gives on two values, `None` on a type fault,
/// overflow, or division by zero.
spec fn apply_op_spec(op: int, a: ValView, b: ValView) -> Option<ValView> {
    if op == 4 {
        match (to_int_spec(a), to_int_spec(b)) {
            (Some(x), Some(y)) => Some(ValView::Bool(x == y)),
            _ => match (a, b) {
                (ValView::Str(x), ValView::Str(y)) => Some(ValView::Bool(x == y)),
                (ValView::Bool(x), ValView::Bool(y)) => Some(ValView::Bool(x == y)),
                _ => Some(ValView::Bool(false)),
            },
        }
    } else {
        match (to_int_spec(a), to_int_spec(b)) {
            (Some(x), Some(y)) => {
                if op == 0 {
                    match fit_i64(x + y) {
                        Some(z) => Some(ValView::Int(z)),
                        None => None,
                    }
                } else if op == 1 {
                    match fit_i64(x - y) {
                        Some(z) => Some(ValView::Int(z)),
                        None => None,
                    }
                } else if op == 2 {
                    match fit_i64(x * y) {
                        Some(z) => Some(ValView::Int(z)),
                        None => None,
                    }
                } else if op == 3 {
                    match div_spec(x, y) {
                        Some(z) => Some(ValView::Int(z)),
                        None => None,
                    }
                } else if op == 5 {
                    Some(ValView::Bool(x < y))
                } else {
                    Some(ValView::Bool(x > y))
                }
            },
            _ => None,
        }
    }
}

/// The printed form of a boolean.
spec fn bool_bytes_spec(b: bool) -> Seq<u8> {
    if b {
        seq![0x74u8, 0x72u8, 0x75u8, 0x65u8]
    } else {
        seq![0x66u8, 0x61u8, 0x6cu8, 0x73u8, 0x65u8]
    }
}

/// The printed form of a number: decimal digits, a minus sign in front of
/// a negative one.
spec fn int_bytes_spec(n: int) -> Seq<u8> {
    if n >= 0 {
        crate::screen::spec_decimal(n as nat)
    } else {
        seq![0x2du8] + crate::screen::spec_decimal((-n) as nat)
    }
}

/// The printed form of a value.
spec fn val_bytes_spec(v: ValView) -> Seq<u8> {
    match v {
        ValView::Int(n) => int_bytes_spec(n),
        ValView::Str(s) => s,
        ValView::Bool(b) => bool_bytes_spec(b),
    }
}

/// The first binding of the name from `i` on, as a value.
spec fn lookup_from(vars: Seq<Binding>, n: Seq<u8>, i: int) -> Option<ValView>
    decreases vars.len() - i,
{
    if i >= vars.len() {
        None
    } else if vars[i].name@ == n {
        Some(val_view(vars[i].val))
    } else {
        lookup_from(vars, n, i + 1)
    }
}

/// The index of the first binding of the name from `i` on; the list's
/// length when the name is unbound.
spec fn binding_at(vars: Seq<Binding>, n: Seq<u8>, i: int) -> int
    decreases vars.len() - i,
{
    if i >= vars.len() {
        vars.len() as int
    } else if vars[i].name@ == n {
        i
    } else {
        binding_at(vars, n, i + 1)
    }
}

/// The variable list after binding the name to the value: the first
/// binding of the name is replaced, or a fresh one is appended.
spec fn bound_spec(a: Seq<Binding>, n: Seq<u8>, v: ValView, b: Seq<Binding>) -> bool {
    let k = binding_at(a, n, 0);
    if k < a.len() {
        &&& b.len() == a.len()
        &&& b[k].name@ == n
        &&& val_view(b[k].val) == v
        &&& forall|j: int| 0 <= j < a.len() && j != k ==> b[j] == a[j]
    } else {
        &&& b.len() == a.len() + 1
        &&& b[k].name@ == n
        &&& val_view(b[k].val) == v
        &&& forall|j: int| 0 <= j < a.len() ==> b[j] == a[j]
    }
}

/// The index just past the block whose body starts at `i` inside `depth`
/// open braces; the token count when the block never closes.
spec fn skip_from(toks: Seq<Tok>, i: int, depth: int) -> int
    decreases toks.len() - i,
{
    if depth <= 0 || i >= toks.len() {
        i
    } else {
        let d2 = match toks[i] {
            Tok::LBrace => depth + 1,
            Tok::RBrace => depth - 1,
            _ => depth,
        };
        skip_from(toks, i + 1, d2)
    }
}

/// A lexical token at the specification level.
enum TokView {
    Ident(Seq<u8>),
    Int(int),
    Str(Seq<u8>),
    Assign,
    LParen,
    RParen,
    LBrace,
    RBrace,
    Plus,
    Minus,
    Star,
    Slash,
    EqEq,
    Lt,
    Gt,
    Not,
    True,
    False,
    While,
    If,
    Else,
    Print,
    Input,
}

/// The token a `Tok` stands for.
spec fn tok_view(t: Tok) -> TokView {
    match t {
        Tok::Ident(n) => TokView::Ident(n@),
        Tok::IntLit(n) => TokView::Int(n as int),
        Tok::StrLit(st) => TokView::Str(st@),
        Tok::Assign => TokView::Assign,
        Tok::LParen => TokView::LParen,
        Tok::RParen => TokView::RParen,
        Tok::LBrace => TokView::LBrace,
        Tok::RBrace => TokView::RBrace,
        Tok::Plus => TokView::Plus,
        Tok::Minus => TokView::Minus,
        Tok::Star => TokView::Star,
        Tok::Slash => TokView::Slash,
        Tok::EqEq => TokView::EqEq,
        Tok::Lt => TokView::Lt,
        Tok::Gt => TokView::Gt,
        Tok::Not => TokView::Not,
        Tok::True => TokView::True,
        Tok::False => TokView::False,
        Tok::While => TokView::While,
        Tok::If => TokView::If,
        Tok::Else => TokView::Else,
        Tok::Print => TokView::Print,
        Tok::Input => TokView::Input,
    }
}

/// A token list as its specification-level view.
spec fn toks_view(ts: Seq<Tok>) -> Seq<TokView> {
    ts.map(|k: int, t: Tok| tok_view(t))
}

/// A blank, a tab, a newline or a carriage return.
spec fn ws_byte(c: u8) -> bool {
    c == 0x20 || c == 0x09 || c == 0x0a || c == 0x0d
}

/// A decimal digit.
spec fn digit_byte(c: u8) -> bool {
    0x30 <= c <= 0x39
}

/// A letter, a digit or an underscore.
spec fn ident_byte(c: u8) -> bool {
    (0x61 <= c <= 0x7a) || (0x41 <= c <= 0x5a) || digit_byte(c) || c == 0x5f
}

/// The index of the first closing quote at or after `k`; the length when
/// none follows.
spec fn quote_end(b: Seq<u8>, k: int) -> int
    decreases b.len() - k,
{
    if k >= b.len() {
        b.len() as int
    } else if b[k] == 0x22 {
        k
    } else {
        quote_end(b, k + 1)
    }
}

/// The index just past the digits that start at `k`.
spec fn digit_end(b: Seq<u8>, k: int) -> int
    decreases b.len() - k,
{
    if k >= b.len() || !digit_byte(b[k]) {
        k
    } else {
        digit_end(b, k + 1)
    }
}

/// The index just past the word characters that start at `k`.
spec fn ident_end(b: Seq<u8>, k: int) -> int
    decreases b.len() - k,
{
    if k >= b.len() || !ident_byte(b[k]) {
        k
    } else {
        ident_end(b, k + 1)
    }
}

/// A word as its keyword token, or as an identifier.
spec fn keyword_view(w: Seq<u8>) -> TokView {
    if w == seq![0x77u8, 0x68u8, 0x69u8, 0x6cu8, 0x65u8] {
        TokView::While
    } else if w == seq![0x69u8, 0x66u8] {
        TokView::If
    } else if w == seq![0x65u8, 0x6cu8, 0x73u8, 0x65u8] {
        TokView::Else
    } else if w == seq![0x70u8, 0x72u8, 0x69u8, 0x6eu8, 0x74u8] {
        TokView::Print
    } else if w == seq![0x69u8, 0x6eu8, 0x70u8, 0x75u8, 0x74u8] {
        TokView::Input
    } else if w == seq![0x74u8, 0x72u8, 0x75u8, 0x65u8] {
        TokView::True
    } else if w == seq![0x66u8, 0x61u8, 0x6cu8, 0x73u8, 0x65u8] {
        TokView::False
    } else if w == seq![0x6eu8, 0x6fu8, 0x74u8] {
        TokView::Not
    } else {
        TokView::Ident(w)
    }
}

/// A token in front of an already-split rest; nothing if the rest failed.
spec fn tok_front(t: TokView, rest: Option<Seq<TokView>>) -> Option<Seq<TokView>> {
    match rest {
        Some(r) => Some(seq![t] + r),
        None => None,
    }
}

/// The tokens of the source text from byte `i` on; nothing on any
/// unexpected byte, an unclosed string, or an overlarge number: the
/// mathematical meaning of `tokenize`.
spec fn tokenize_from(b: Seq<u8>, i: int) -> Option<Seq<TokView>>
    decreases b.len() - i,
{
    if i >= b.len() {
        Some(Seq::empty())
    } else {
        let c = b[i];
        if ws_byte(c) {
            tokenize_from(b, i + 1)
        } else if c == 0x3a {
            if i + 1 < b.len() && b[i + 1] == 0x3d {
                tok_front(TokView::Assign, tokenize_from(b, i + 2))
            } else {
                None
            }
        } else if c == 0x3d {
            if i + 1 < b.len() && b[i + 1] == 0x3d {
                tok_front(TokView::EqEq, tokenize_from(b, i + 2))
            } else {
                None
            }
        } else if c == 0x28 {
            tok_front(TokView::LParen, tokenize_from(b, i + 1))
        } else if c == 0x29 {
            tok_front(TokView::RParen, tokenize_from(b, i + 1))
        } else if c == 0x7b {
            tok_front(TokView::LBrace, tokenize_from(b, i + 1))
        } else if c == 0x7d {
            tok_front(TokView::RBrace, tokenize_from(b, i + 1))
        } else if c == 0x2b {
            tok_front(TokView::Plus, tokenize_from(b, i + 1))
        } else if c == 0x2d {
            tok_front(TokView::Minus, tokenize_from(b, i + 1))
        } else if c == 0x2a {
            tok_front(TokView::Star, tokenize_from(b, i + 1))
        } else if c == 0x2f {
            tok_front(TokView::Slash, tokenize_from(b, i + 1))
        } else if c == 0x3c {
            tok_front(TokView::Lt, tokenize_from(b, i + 1))
        } else if c == 0x3e {
            tok_front(TokView::Gt, tokenize_from(b, i + 1))
        } else if c == 0x22 {
            let qe = quote_end(b, i + 1);
            if qe >= b.len() {
                None
            } else if qe < i + 1 {
                // the scan never moves left; this arm is never taken
                None
            } else {
                tok_front(TokView::Str(b.subrange(i + 1, qe)), tokenize_from(b, qe + 1))
            }
        } else if digit_byte(c) {
            let de = digit_end(b, i);
            if de <= i || de > b.len() {
                // the scan stays inside the text and always moves; never taken
                None
            } else {
                match parse_digits_spec(b.subrange(i, de), 0, false, 0) {
                    Some(n) => tok_front(TokView::Int(n), tokenize_from(b, de)),
                    None => None,
                }
            }
        } else if ident_byte(c) {
            let ie = ident_end(b, i);
            if ie <= i || ie > b.len() {
                // the scan stays inside the text and always moves; never taken
                None
            } else {
                tok_front(keyword_view(b.subrange(i, ie)), tokenize_from(b, ie))
            }
        } else {
            None
        }
    }
}

/// The program state a fresh interpreter for this source text holds: the
/// text's own tokens with everything at its start, or, when the text does
/// not scan, the empty program already marked faulted.
pub closed spec fn built_from(src: Seq<u8>, r: Interpreter) -> bool {
    &&& r.pc == 0
    &&& r.frames@ == Seq::<Frame>::empty()
    &&& r.vars@ == Seq::<Binding>::empty()
    &&& r.queued() is None
    &&& match tokenize_from(src, 0) {
        Some(ts) => toks_view(r.toks@) == ts && !r.failed,
        None => r.toks@ == Seq::<Tok>::empty() && r.failed,
    }
}

/// The outcome of evaluating one expression at the specification level.
enum EvalOut {
    /// The value, the index just past the expression, the queue afterwards.
    Val(ValView, int, Option<Seq<u8>>),
    /// An `input(...)` found nothing queued; the queue is empty afterwards.
    NeedLine,
    /// A fault; the queue afterwards.
    Bad(Option<Seq<u8>>),
}

/// One expression, evaluated at the specification level from token `p`:
/// the mathematical meaning of `Interpreter::eval`.
spec fn eval_spec(toks: Seq<Tok>, vars: Seq<Binding>, q: Option<Seq<u8>>, p: int) -> EvalOut
    decreases toks.len() - p,
{
    if p < 0 || p >= toks.len() {
        EvalOut::Bad(q)
    } else {
        match toks[p] {
            Tok::IntLit(n) => EvalOut::Val(ValView::Int(n as int), p + 1, q),
            Tok::StrLit(st) => EvalOut::Val(ValView::Str(st@), p + 1, q),
            Tok::True => EvalOut::Val(ValView::Bool(true), p + 1, q),
            Tok::False => EvalOut::Val(ValView::Bool(false), p + 1, q),
            Tok::Ident(nm) => match lookup_from(vars, nm@, 0) {
                Some(v) => EvalOut::Val(v, p + 1, q),
                None => EvalOut::Bad(q),
            },
            Tok::Input => if p + 3 < toks.len() && (toks[p + 1] matches Tok::LParen) && (toks[p
                + 2] matches Tok::StrLit(_)) && (toks[p + 3] matches Tok::RParen) {
                match q {
                    Some(line) => EvalOut::Val(ValView::Str(line), p + 4, None),
                    None => EvalOut::NeedLine,
                }
            } else {
                EvalOut::Bad(q)
            },
            Tok::Not => match eval_spec(toks, vars, q, p + 1) {
                EvalOut::Val(v, np, q2) => match v {
                    ValView::Bool(b) => EvalOut::Val(ValView::Bool(!b), np, q2),
                    _ => EvalOut::Bad(q2),
                },
                other => other,
            },
            Tok::Minus => match eval_spec(toks, vars, q, p + 1) {
                EvalOut::Val(v, np, q2) => match to_int_spec(v) {
                    Some(x) => match fit_i64(0 - x) {
                        Some(z) => EvalOut::Val(ValView::Int(z), np, q2),
                        None => EvalOut::Bad(q2),
                    },
                    None => EvalOut::Bad(q2),
                },
                other => other,
            },
            Tok::LParen => match eval_spec(toks, vars, q, p + 1) {
                EvalOut::Val(lv, op_pos, q1) => if op_pos >= toks.len() {
                    EvalOut::Bad(q1)
                } else if op_code(toks[op_pos]) == 7 {
                    EvalOut::Bad(q1)
                } else if op_pos <= p {
                    // evaluation always moves right; this arm is never taken
                    EvalOut::Bad(q1)
                } else {
                    match eval_spec(toks, vars, q1, op_pos + 1) {
                        EvalOut::Val(rv, close_pos, q2) => if close_pos >= toks.len() || !(
                        toks[close_pos] matches Tok::RParen) {
                            EvalOut::Bad(q2)
                        } else {
                            match apply_op_spec(op_code(toks[op_pos]), lv, rv) {
                                Some(v) => EvalOut::Val(v, close_pos + 1, q2),
                                None => EvalOut::Bad(q2),
                            }
                        },
                        other => other,
                    }
                },
                other => other,
            },
            _ => EvalOut::Bad(q),
        }
    }
}

/// The program state `b` follows `a` with the given counter, frames,
/// fault flag and queue, the tokens and variables staying put.
spec fn stepped(
    a: Interpreter,
    b: Interpreter,
    pc2: int,
    frames2: Seq<Frame>,
    failed2: bool,
    q2: Option<Seq<u8>>,
) -> bool {
    &&& b.toks@ == a.toks@
    &&& b.pc == pc2
    &&& b.frames@ == frames2
    &&& b.vars@ == a.vars@
    &&& b.queued() == q2
    &&& b.failed == failed2
}

/// One tick of a program, at the specification level: exactly how the
/// result and the following state arise from the state before. The step
/// is deterministic, so for each prior state only one result and next
/// state satisfy it: a tick that does nothing, or reports something it
/// did not do, is ruled out.
pub closed spec fn step_spec(a: Interpreter, r: TickResult, b: Interpreter) -> bool {
    let toks = a.toks@;
    let vars = a.vars@;
    let frames = a.frames@;
    let q = a.queued();
    let pc = a.pc as int;
    if a.failed || pc >= toks.len() {
        &&& r == TickResult::Finished
        &&& stepped(a, b, pc, frames, a.failed || frames.len() > 0, q)
    } else {
        match toks[pc] {
            Tok::RBrace => if frames.len() == 0 {
                r == TickResult::Finished && stepped(a, b, pc, frames, true, q)
            } else {
                let rest = frames.drop_last();
                match frames.last() {
                    Frame::Loop(w) => r == TickResult::Continuing && stepped(
                        a,
                        b,
                        w as int,
                        rest,
                        false,
                        q,
                    ),
                    Frame::Then => if pc + 1 < toks.len() && (toks[pc + 1] matches Tok::Else) {
                        if pc + 2 < toks.len() && (toks[pc + 2] matches Tok::LBrace) {
                            r == TickResult::Continuing && stepped(
                                a,
                                b,
                                skip_from(toks, pc + 3, 1),
                                rest,
                                false,
                                q,
                            )
                        } else {
                            r == TickResult::Finished && stepped(a, b, pc + 1, rest, true, q)
                        }
                    } else {
                        r == TickResult::Continuing && stepped(a, b, pc + 1, rest, false, q)
                    },
                    Frame::Else => r == TickResult::Continuing && stepped(
                        a,
                        b,
                        pc + 1,
                        rest,
                        false,
                        q,
                    ),
                }
            },
            Tok::While => match eval_spec(toks, vars, q, pc + 1) {
                EvalOut::NeedLine => r == TickResult::AwaitInput && stepped(
                    a,
                    b,
                    pc,
                    frames,
                    false,
                    None,
                ),
                EvalOut::Bad(q2) => r == TickResult::Finished && stepped(a, b, pc, frames, true, q2),
                EvalOut::Val(v, ce, q2) => match v {
                    ValView::Bool(truth) => if ce < toks.len() && (toks[ce] matches Tok::LBrace) {
                        if truth {
                            r == TickResult::Continuing && stepped(
                                a,
                                b,
                                ce + 1,
                                frames.push(Frame::Loop(a.pc)),
                                false,
                                q2,
                            )
                        } else {
                            r == TickResult::Continuing && stepped(
                                a,
                                b,
                                skip_from(toks, ce + 1, 1),
                                frames,
                                false,
                                q2,
                            )
                        }
                    } else {
                        r == TickResult::Finished && stepped(a, b, pc, frames, true, q2)
                    },
                    _ => r == TickResult::Finished && stepped(a, b, pc, frames, true, q2),
                },
            },
            Tok::If => match eval_spec(toks, vars, q, pc + 1) {
                EvalOut::NeedLine => r == TickResult::AwaitInput && stepped(
                    a,
                    b,
                    pc,
                    frames,
                    false,
                    None,
                ),
                EvalOut::Bad(q2) => r == TickResult::Finished && stepped(a, b, pc, frames, true, q2),
                EvalOut::Val(v, ce, q2) => match v {
                    ValView::Bool(truth) => if ce < toks.len() && (toks[ce] matches Tok::LBrace) {
                        if truth {
                            r == TickResult::Continuing && stepped(
                                a,
                                b,
                                ce + 1,
                                frames.push(Frame::Then),
                                false,
                                q2,
                            )
                        } else {
                            let after = skip_from(toks, ce + 1, 1);
                            if after < toks.len() && (toks[after] matches Tok::Else) {
                                if after + 1 < toks.len() && (toks[after + 1] matches Tok::LBrace) {
                                    r == TickResult::Continuing && stepped(
                                        a,
                                        b,
                                        after + 2,
                                        frames.push(Frame::Else),
                                        false,
                                        q2,
                                    )
                                } else {
                                    r == TickResult::Finished && stepped(a, b, pc, frames, true, q2)
                                }
                            } else {
                                r == TickResult::Continuing && stepped(a, b, after, frames, false, q2)
                            }
                        }
                    } else {
                        r == TickResult::Finished && stepped(a, b, pc, frames, true, q2)
                    },
                    _ => r == TickResult::Finished && stepped(a, b, pc, frames, true, q2),
                },
            },
            Tok::Print => if pc + 1 < toks.len() && (toks[pc + 1] matches Tok::LParen) {
                match eval_spec(toks, vars, q, pc + 2) {
                    EvalOut::NeedLine => r == TickResult::AwaitInput && stepped(
                        a,
                        b,
                        pc,
                        frames,
                        false,
                        None,
                    ),
                    EvalOut::Bad(q2) => r == TickResult::Finished && stepped(
                        a,
                        b,
                        pc,
                        frames,
                        true,
                        q2,
                    ),
                    EvalOut::Val(v, ee, q2) => if ee < toks.len() && (toks[ee] matches Tok::RParen) {
                        &&& (r matches TickResult::Printed(line) && line@ == val_bytes_spec(v))
                        &&& stepped(a, b, ee + 1, frames, false, q2)
                    } else {
                        r == TickResult::Finished && stepped(a, b, pc, frames, true, q2)
                    },
                }
            } else {
                r == TickResult::Finished && stepped(a, b, pc, frames, true, q)
            },
            Tok::Ident(nm) => if pc + 1 < toks.len() && (toks[pc + 1] matches Tok::Assign) {
                match eval_spec(toks, vars, q, pc + 2) {
                    EvalOut::NeedLine => r == TickResult::AwaitInput && stepped(
                        a,
                        b,
                        pc,
                        frames,
                        false,
                        None,
                    ),
                    EvalOut::Bad(q2) => r == TickResult::Finished && stepped(
                        a,
                        b,
                        pc,
                        frames,
                        true,
                        q2,
                    ),
                    EvalOut::Val(v, ee, q2) => {
                        &&& r == TickResult::Continuing
                        &&& b.toks@ == toks
                        &&& b.pc == ee
                        &&& b.frames@ == frames
                        &&& b.queued() == q2
                        &&& !b.failed
                        &&& bound_spec(vars, nm@, v, b.vars@)
                    },
                }
            } else {
                r == TickResult::Finished && stepped(a, b, pc, frames, true, q)
            },
            _ => r == TickResult::Finished && stepped(a, b, pc, frames, true, q),
        }
    }
}

/// The two program states differ at most in the queued input line.
pub closed spec fn same_but_queue(a: Interpreter, b: Interpreter) -> bool {
    &&& b.toks@ == a.toks@
    &&& b.pc == a.pc
    &&& b.frames@ == a.frames@
    &&& b.vars@ == a.vars@
    &&& b.failed == a.failed
}

/// `b` is `a` with exactly this line queued for its next input request.
pub open spec fn delivered(a: Interpreter, line: Seq<u8>, b: Interpreter) -> bool {
    &&& same_but_queue(a, b)
    &&& b.queued() == Some(line)
}

/// The state of one window's program between ticks.
pub struct Interpreter {
    toks: Vec<Tok>,
    pc: usize,
    frames: Vec<Frame>,
    vars: Vec<Binding>,
    pending: Option<Vec<u8>>,
    failed: bool,
}

impl Interpreter {
    /// Every stored position stays inside the token list.
    pub closed spec fn wf(self) -> bool {
        &&& self.pc <= self.toks@.len()
        &&& forall|i: int|
            0 <= i < self.frames@.len() ==> ((#[trigger] self.frames@[i]) matches Frame::Loop(p)
                ==> p < self.toks@.len())
    }

    /// The program can do nothing more.
    pub closed spec fn halted(self) -> bool {
        self.failed || self.pc >= self.toks@.len()
    }

    /// A line of input is queued and not yet consumed.
    pub closed spec fn has_pending(self) -> bool {
        self.pending is Some
    }

    /// The queued input line, if any.
    pub closed spec fn queued(self) -> Option<Seq<u8>> {
        match self.pending {
            Some(v) => Some(v@),
            None => None,
        }
    }

    /// Where in the program the next tick will resume.
    pub closed spec fn position(self) -> int {
        self.pc as int
    }

    /// Builds the program state for a source text. A lexical fault leaves a
    /// program that halts on its first tick.
    pub fn new(src: &Vec<u8>) -> (r: Interpreter)
        ensures
            r.wf(),
            !r.has_pending(),
            built_from(src@, r),
    {
        match tokenize(src) {
            Some(toks) => Interpreter {
                toks,
                pc: 0,
                frames: Vec::new(),
                vars: Vec::new(),
                pending: None,
                failed: false,
            },
            None => Interpreter {
                toks: Vec::new(),
                pc: 0,
                frames: Vec::new(),
                vars: Vec::new(),
                pending: None,
                failed: true,
            },
        }
    }

    /// Queues one composed line of input for the next `input(...)`.
    pub fn provide_input(&mut self, line: &Vec<u8>)
        requires
            old(self).wf(),
        ensures
            final(self).wf(),
            final(self).has_pending(),
            delivered(*old(self), line@, *final(self)),
            final(self).halted() == old(self).halted(),
            final(self).position() == old(self).position(),
    {
        self.pending = Some(bytes_clone(line));
    }

    /// Runs at most one statement.
    pub fn tick(&mut self) -> (r: TickResult)
        requires
            old(self).wf(),
        ensures
            final(self).wf(),
            step_spec(*old(self), r, *final(self)),
            old(self).halted() ==> r == TickResult::Finished,
            r == TickResult::Finished ==> final(self).halted(),
            r matches TickResult::Printed(line) ==> final(self).position() > old(self).position(),
            r == TickResult::AwaitInput ==> !final(self).halted() && !final(self).has_pending()
                && final(self).position() == old(self).position(),
    {
        if self.failed || self.pc >= self.toks.len() {
            if !self.failed && self.frames.len() > 0 {
                // a block was never closed
                self.failed = true;
            }
            return TickResult::Finished;
        }
        let stmt_pc = self.pc;
        match &self.toks[stmt_pc] {
            Tok::RBrace => {
                match self.frames.pop() {
                    Some(Frame::Loop(wpc)) => {
                        self.pc = wpc;
                    },
                    Some(Frame::Then) => {
                        self.pc = stmt_pc + 1;
                        if self.pc < self.toks.len() {
                            let is_else = matches!(&self.toks[self.pc], Tok::Else);
                            if is_else {
                                if self.pc + 1 < self.toks.len() && matches!(
                                    &self.toks[self.pc + 1],
                                    Tok::LBrace,
                                ) {
                                    let after = skip_block(&self.toks, self.pc + 1);
                                    self.pc = after;
                                } else {
                                    self.failed = true;
                                    return TickResult::Finished;
                                }
                            }
                        }
                    },
                    Some(Frame::Else) => {
                        self.pc = stmt_pc + 1;
                    },
                    None => {
                        self.failed = true;
                        return TickResult::Finished;
                    },
                }
                TickResult::Continuing
            },
            Tok::While => {
                match self.eval(stmt_pc + 1) {
                    Ok((v, cond_end)) => {
                        let truth = match v {
                            Value::BoolV(b) => b,
                            _ => {
                                self.failed = true;
                                return TickResult::Finished;
                            },
                        };
                        if cond_end < self.toks.len() && matches!(&self.toks[cond_end], Tok::LBrace)
                        {
                            if truth {
                                self.frames.push(Frame::Loop(stmt_pc));
                                self.pc = cond_end + 1;
                            } else {
                                self.pc = skip_block(&self.toks, cond_end);
                            }
                            TickResult::Continuing
                        } else {
                            self.failed = true;
                            TickResult::Finished
                        }
                    },
                    Err(EvalStop::NeedInput) => TickResult::AwaitInput,
                    Err(EvalStop::Fault) => {
                        self.failed = true;
                        TickResult::Finished
                    },
                }
            },
            Tok::If => {
                match self.eval(stmt_pc + 1) {
                    Ok((v, cond_end)) => {
                        let truth = match v {
                            Value::BoolV(b) => b,
                            _ => {
                                self.failed = true;
                                return TickResult::Finished;
                            },
                        };
                        if cond_end < self.toks.len() && matches!(&self.toks[cond_end], Tok::LBrace)
                        {
                            if truth {
                                self.frames.push(Frame::Then);
                                self.pc = cond_end + 1;
                            } else {
                                let after = skip_block(&self.toks, cond_end);
                                if after < self.toks.len() && matches!(&self.toks[after], Tok::Else)
                                {
                                    if after + 1 < self.toks.len() && matches!(
                                        &self.toks[after + 1],
                                        Tok::LBrace,
                                    ) {
                                        self.frames.push(Frame::Else);
                                        self.pc = after + 2;
                                    } else {
                                        self.failed = true;
                                        return TickResult::Finished;
                                    }
                                } else {
                                    self.pc = after;
                                }
                            }
                            TickResult::Continuing
                        } else {
                            self.failed = true;
                            TickResult::Finished
                        }
                    },
                    Err(EvalStop::NeedInput) => TickResult::AwaitInput,
                    Err(EvalStop::Fault) => {
                        self.failed = true;
                        TickResult::Finished
                    },
                }
            },
            Tok::Print => {
                if stmt_pc + 1 < self.toks.len() && matches!(&self.toks[stmt_pc + 1], Tok::LParen) {
                    match self.eval(stmt_pc + 2) {
                        Ok((v, expr_end)) => {
                            if expr_end < self.toks.len() && matches!(
                                &self.toks[expr_end],
                                Tok::RParen,
                            ) {
                                self.pc = expr_end + 1;
                                TickResult::Printed(value_to_bytes(&v))
                            } else {
                                self.failed = true;
                                TickResult::Finished
                            }
                        },
                        Err(EvalStop::NeedInput) => TickResult::AwaitInput,
                        Err(EvalStop::Fault) => {
                            self.failed = true;
                            TickResult::Finished
                        },
                    }
                } else {
                    self.failed = true;
                    TickResult::Finished
                }
            },
            Tok::Ident(_) => {
                let name = match &self.toks[stmt_pc] {
                    Tok::Ident(n) => bytes_clone(n),
                    _ => Vec::new(),
                };
                if stmt_pc + 1 < self.toks.len() && matches!(&self.toks[stmt_pc + 1], Tok::Assign) {
                    match self.eval(stmt_pc + 2) {
                        Ok((v, expr_end)) => {
                            self.set_var(&name, v);
                            self.pc = expr_end;
                            TickResult::Continuing
                        },
                        Err(EvalStop::NeedInput) => TickResult::AwaitInput,
                        Err(EvalStop::Fault) => {
                            self.failed = true;
                            TickResult::Finished
                        },
                    }
                } else {
                    self.failed = true;
                    TickResult::Finished
                }
            },
            _ => {
                self.failed = true;
                TickResult::Finished
            },
        }
    }

    /// Evaluates the expression that starts at token `p`; gives its value
    /// and the index just past it.
    fn eval(&mut self, p: usize) -> (r: Result<(Value, usize), EvalStop>)
        requires
            old(self).wf(),
        ensures
            final(self).wf(),
            final(self).toks@ == old(self).toks@,
            final(self).pc == old(self).pc,
            final(self).frames@ == old(self).frames@,
            final(self).vars@ == old(self).vars@,
            final(self).failed == old(self).failed,
            final(self).halted() == old(self).halted(),
            r matches Ok(pair) ==> p < pair.1 <= final(self).toks@.len(),
            r matches Err(s) ==> (s matches EvalStop::NeedInput ==> !final(self).has_pending()),
            match r {
                Ok(pair) => eval_spec(old(self).toks@, old(self).vars@, old(self).queued(), p as int)
                    == EvalOut::Val(val_view(pair.0), pair.1 as int, final(self).queued()),
                Err(EvalStop::NeedInput) => eval_spec(
                    old(self).toks@,
                    old(self).vars@,
                    old(self).queued(),
                    p as int,
                ) == EvalOut::NeedLine,
                Err(EvalStop::Fault) => eval_spec(
                    old(self).toks@,
                    old(self).vars@,
                    old(self).queued(),
                    p as int,
                ) == EvalOut::Bad(final(self).queued()),
            },
        decreases old(self).toks@.len() - p,
    {
        if p >= self.toks.len() {
            return Err(EvalStop::Fault);
        }
        let kind: usize = match &self.toks[p] {
            Tok::IntLit(_) => 0,
            Tok::StrLit(_) => 1,
            Tok::True => 2,
            Tok::False => 3,
            Tok::Ident(_) => 4,
            Tok::Input => 5,
            Tok::Not => 6,
            Tok::Minus => 7,
            Tok::LParen => 8,
            _ => 9,
        };
        if kind == 0 {
            let n = match &self.toks[p] {
                Tok::IntLit(n) => *n,
                _ => 0,
            };
            Ok((Value::IntV(n), p + 1))
        } else if kind == 1 {
            let s = match &self.toks[p] {
                Tok::StrLit(s) => bytes_clone(s),
                _ => Vec::new(),
            };
            Ok((Value::StrV(s), p + 1))
        } else if kind == 2 {
            Ok((Value::BoolV(true), p + 1))
        } else if kind == 3 {
            Ok((Value::BoolV(false), p + 1))
        } else if kind == 4 {
            let name = match &self.toks[p] {
                Tok::Ident(n) => bytes_clone(n),
                _ => Vec::new(),
            };
            match self.get_var(&name) {
                Some(v) => Ok((v, p + 1)),
                None => Err(EvalStop::Fault),
            }
        } else if kind == 5 {
            // input ( "prompt" )
            let n = self.toks.len();
            if n >= 4 && p <= n - 4 && matches!(&self.toks[p + 1], Tok::LParen) && matches!(
                &self.toks[p + 2],
                Tok::StrLit(_),
            ) && matches!(&self.toks[p + 3], Tok::RParen) {
                let line = self.pending.take();
                match line {
                    Some(s) => Ok((Value::StrV(s), p + 4)),
                    None => Err(EvalStop::NeedInput),
                }
            } else {
                Err(EvalStop::Fault)
            }
        } else if kind == 6 {
            match self.eval(p + 1) {
                Ok((Value::BoolV(b), np)) => Ok((Value::BoolV(!b), np)),
                Ok(_) => Err(EvalStop::Fault),
                Err(e) => Err(e),
            }
        } else if kind == 7 {
            match self.eval(p + 1) {
                Ok((v, np)) => {
                    match value_to_int(&v) {
                        Some(n) => match (0i64).checked_sub(n) {
                            Some(m) => Ok((Value::IntV(m), np)),
                            None => Err(EvalStop::Fault),
                        },
                        None => Err(EvalStop::Fault),
                    }
                },
                Err(e) => Err(e),
            }
        } else if kind == 8 {
            let lhs = match self.eval(p + 1) {
                Ok(pair) => pair,
                Err(e) => {
                    return Err(e);
                },
            };
            let (lv, op_pos) = lhs;
            if op_pos >= self.toks.len() {
                return Err(EvalStop::Fault);
            }
            let op: usize = match &self.toks[op_pos] {
                Tok::Plus => 0,
                Tok::Minus => 1,
                Tok::Star => 2,
                Tok::Slash => 3,
                Tok::EqEq => 4,
                Tok::Lt => 5,
                Tok::Gt => 6,
                _ => 7,
            };
            if op == 7 {
                return Err(EvalStop::Fault);
            }
            let rhs = match self.eval(op_pos + 1) {
                Ok(pair) => pair,
                Err(e) => {
                    return Err(e);
                },
            };
            let (rv, close_pos) = rhs;
            if close_pos >= self.toks.len() || !matches!(&self.toks[close_pos], Tok::RParen) {
                return Err(EvalStop::Fault);
            }
            match apply_op(op, &lv, &rv) {
                Some(v) => Ok((v, close_pos + 1)),
                None => Err(EvalStop::Fault),
            }
        } else {
            Err(EvalStop::Fault)
        }
    }

    /// The value bound to a name, if any.
    fn get_var(&self, name: &Vec<u8>) -> (r: Option<Value>)
        ensures
            match r {
                Some(v) => lookup_from(self.vars@, name@, 0) == Some(val_view(v)),
                None => lookup_from(self.vars@, name@, 0) is None,
            },
    {
        let mut i: usize = 0;
        while i < self.vars.len()
            invariant
                i <= self.vars@.len(),
                lookup_from(self.vars@, name@, 0) == lookup_from(self.vars@, name@, i as int),
            decreases self.vars@.len() - i,
        {
            if bytes_eq(&self.vars[i].name, name) {
                return Some(clone_value(&self.vars[i].val));
            }
            i += 1;
        }
        None
    }

    /// Binds a name, replacing any earlier binding.
    fn set_var(&mut self, name: &Vec<u8>, v: Value)
        requires
            old(self).wf(),
        ensures
            final(self).wf(),
            final(self).toks@ == old(self).toks@,
            final(self).pc == old(self).pc,
            final(self).frames@ == old(self).frames@,
            final(self).has_pending() == old(self).has_pending(),
            final(self).pending == old(self).pending,
            final(self).failed == old(self).failed,
            bound_spec(old(self).vars@, name@, val_view(v), final(self).vars@),
    {
        let mut i: usize = 0;
        while i < self.vars.len()
            invariant
                old(self).wf(),
                i <= self.vars@.len(),
                self.vars@ == old(self).vars@,
                binding_at(old(self).vars@, name@, 0) == binding_at(old(self).vars@, name@, i as int),
                self.toks@ == old(self).toks@,
                self.pc == old(self).pc,
                self.frames@ == old(self).frames@,
                self.pending == old(self).pending,
                self.failed == old(self).failed,
            decreases self.vars@.len() - i,
        {
            if bytes_eq(&self.vars[i].name, name) {
                self.vars[i].val = v;
                return;
            }
            i += 1;
        }
        self.vars.push(Binding { name: bytes_clone(name), val: v });
    }
}

/// A copy of a value.
fn clone_value(v: &Value) -> (r: Value)
    ensures
        val_view(r) == val_view(*v),
{
    match v {
        Value::IntV(n) => Value::IntV(*n),
        Value::StrV(s) => Value::StrV(bytes_clone(s)),
        Value::BoolV(b) => Value::BoolV(*b),
    }
}

/// A value as a number: an integer itself, or a string of digits.
fn value_to_int(v: &Value) -> (r: Option<i64>)
    ensures
        match r {
            Some(n) => to_int_spec(val_view(*v)) == Some(n as int),
            None => to_int_spec(val_view(*v)) is None,
        },
{
    match v {
        Value::IntV(n) => Some(*n),
        Value::StrV(s) => parse_int(s),
        Value::BoolV(_) => None,
    }
}

/// Applies a binary operator; `None` on a type fault, overflow, or division
/// by zero.
fn apply_op(op: usize, lv: &Value, rv: &Value) -> (r: Option<Value>)
    requires
        op <= 6,
    ensures
        match r {
            Some(v) => apply_op_spec(op as int, val_view(*lv), val_view(*rv)) == Some(val_view(v)),
            None => apply_op_spec(op as int, val_view(*lv), val_view(*rv)) is None,
        },
{
    if op == 4 {
        // equality: numbers when both sides read as numbers, else
        // strings with strings, booleans with booleans
        let ln = value_to_int(lv);
        let rn = value_to_int(rv);
        match (ln, rn) {
            (Some(a), Some(b)) => Some(Value::BoolV(a == b)),
            _ => {
                match (lv, rv) {
                    (Value::StrV(a), Value::StrV(b)) => Some(Value::BoolV(bytes_eq(a, b))),
                    (Value::BoolV(a), Value::BoolV(b)) => Some(Value::BoolV(a == b)),
                    _ => Some(Value::BoolV(false)),
                }
            },
        }
    } else {
        let a = match value_to_int(lv) {
            Some(a) => a,
            None => {
                return None;
            },
        };
        let b = match value_to_int(rv) {
            Some(b) => b,
            None => {
                return None;
            },
        };
        if op == 0 {
            match a.checked_add(b) {
                Some(c) => Some(Value::IntV(c)),
                None => None,
            }
        } else if op == 1 {
            match a.checked_sub(b) {
                Some(c) => Some(Value::IntV(c)),
                None => None,
            }
        } else if op == 2 {
            match a.checked_mul(b) {
                Some(c) => Some(Value::IntV(c)),
                None => None,
            }
        } else if op == 3 {
            match a.checked_div(b) {
                Some(c) => Some(Value::IntV(c)),
                None => None,
            }
        } else if op == 5 {
            Some(Value::BoolV(a < b))
        } else {
            Some(Value::BoolV(a > b))
        }
    }
}

/// Reads a decimal integer, with an optional leading minus sign, from the
/// whole byte string.
fn parse_int(s: &Vec<u8>) -> (r: Option<i64>)
    ensures
        match r {
            Some(n) => parse_int_spec(s@) == Some(n as int),
            None => parse_int_spec(s@) is None,
        },
{
    let mut i: usize = 0;
    let mut neg = false;
    if s.len() == 0 {
        return None;
    }
    if s[0] == 0x2d {
        neg = true;
        i = 1;
        if s.len() == 1 {
            return None;
        }
    }
    let mut acc: i64 = 0;
    while i < s.len()
        invariant
            i <= s@.len(),
            i >= 1 || !neg,
            parse_int_spec(s@) == parse_digits_spec(s@, i as int, neg, acc as int),
        decreases s@.len() - i,
    {
        let b = s[i];
        if b < 0x30 || b > 0x39 {
            return None;
        }
        let d = (b - 0x30) as i64;
        acc = match acc.checked_mul(10) {
            Some(x) => x,
            None => {
                return None;
            },
        };
        acc = if neg {
            match acc.checked_sub(d) {
                Some(x) => x,
                None => {
                    return None;
                },
            }
        } else {
            match acc.checked_add(d) {
                Some(x) => x,
                None => {
                    return None;
                },
            }
        };
        i += 1;
    }
    Some(acc)
}

/// The printed form of a value.
fn value_to_bytes(v: &Value) -> (r: Vec<u8>)
    ensures
        r@ == val_bytes_spec(val_view(*v)),
{
    match v {
        Value::IntV(n) => int_to_bytes(*n),
        Value::StrV(s) => bytes_clone(s),
        Value::BoolV(b) => {
            let mut r: Vec<u8> = Vec::new();
            if *b {
                r.push(0x74);  // t
                r.push(0x72);  // r
                r.push(0x75);  // u
                r.push(0x65);  // e
            } else {
                r.push(0x66);  // f
                r.push(0x61);  // a
                r.push(0x6c);  // l
                r.push(0x73);  // s
                r.push(0x65);  // e
            }
            proof {
                assert(r@ =~= bool_bytes_spec(*b));
            }
            r
        },
    }
}

/// A signed number in decimal.
fn int_to_bytes(n: i64) -> (r: Vec<u8>)
    ensures
        r@ == int_bytes_spec(n as int),
{
    let mag: u64 = if n < 0 {
        if n == i64::MIN {
            9223372036854775808u64
        } else {
            (-n) as u64
        }
    } else {
        n as u64
    };
    proof {
        assert(n < 0 ==> mag == -(n as int));
    }
    let mut digits = decimal_u64(mag);
    if n < 0 {
        let mut r: Vec<u8> = Vec::new();
        r.push(0x2d);
        let mut i: usize = 0;
        while i < digits.len()
            invariant
                i <= digits@.len(),
                r@ == seq![0x2du8] + digits@.take(i as int),
            decreases digits@.len() - i,
        {
            r.push(digits[i]);
            proof {
                assert(r@ =~= seq![0x2du8] + digits@.take(i + 1 as int));
            }
            i += 1;
        }
        proof {
            assert(digits@.take(digits@.len() as int) =~= digits@);
        }
        r
    } else {
        digits
    }
}

/// An unsigned number in decimal, most significant digit first.
fn decimal_u64(n: u64) -> (r: Vec<u8>)
    ensures
        r@ == crate::screen::spec_decimal(n as nat),
    decreases n,
{
    if n < 10 {
        let mut v: Vec<u8> = Vec::new();
        v.push(0x30 + (n as u8));
        proof {
            assert(v@ =~= crate::screen::spec_decimal(n as nat));
        }
        v
    } else {
        let mut v = decimal_u64(n / 10);
        v.push(0x30 + ((n % 10) as u8));
        proof {
            assert(v@ =~= crate::screen::spec_decimal(n as nat));
        }
        v
    }
}

/// The index just past the block whose `{` stands at `p`; the token count
/// itself when the block never closes.
fn skip_block(toks: &Vec<Tok>, p: usize) -> (r: usize)
    requires
        p < toks@.len(),
    ensures
        p < r <= toks@.len(),
        r == skip_from(toks@, p + 1, 1),
{
    let n = toks.len();
    let mut i: usize = p + 1;
    let mut depth: usize = 1;
    while i < toks.len() && depth > 0
        invariant
            p < i <= toks@.len(),
            depth <= i,
            skip_from(toks@, p + 1, 1) == skip_from(toks@, i as int, depth as int),
        decreases toks@.len() - i,
    {
        let delta: usize = match &toks[i] {
            Tok::LBrace => 1,
            Tok::RBrace => 2,
            _ => 0,
        };
        if delta == 1 {
            depth += 1;
        } else if delta == 2 {
            depth -= 1;
        }
        i += 1;
    }
    i
}

/// The first closing quote at or after `k` is where the scan stopped.
proof fn lemma_quote_end_at(b: Seq<u8>, k: int, q: int)
    requires
        0 <= k <= q <= b.len(),
        forall|m: int| k <= m < q ==> b[m] != 0x22,
        q < b.len() ==> b[q] == 0x22,
    ensures
        quote_end(b, k) == q,
    decreases q - k,
{
    if k < q {
        assert(b[k] != 0x22);
        lemma_quote_end_at(b, k + 1, q);
    }
}

/// The digits end exactly where the scan stopped.
proof fn lemma_digit_end_at(b: Seq<u8>, k: int, q: int)
    requires
        0 <= k <= q <= b.len(),
        forall|m: int| k <= m < q ==> digit_byte(b[m]),
        q < b.len() ==> !digit_byte(b[q]),
    ensures
        digit_end(b, k) == q,
    decreases q - k,
{
    if k < q {
        lemma_digit_end_at(b, k + 1, q);
    }
}

/// The word characters end exactly where the scan stopped.
proof fn lemma_ident_end_at(b: Seq<u8>, k: int, q: int)
    requires
        0 <= k <= q <= b.len(),
        forall|m: int| k <= m < q ==> ident_byte(b[m]),
        q < b.len() ==> !ident_byte(b[q]),
    ensures
        ident_end(b, k) == q,
    decreases q - k,
{
    if k < q {
        lemma_ident_end_at(b, k + 1, q);
    }
}

/// Viewing a token list commutes with appending one token.
proof fn lemma_view_push(ts: Seq<Tok>, t: Tok)
    ensures
        toks_view(ts.push(t)) == toks_view(ts).push(tok_view(t)),
{
    assert(toks_view(ts.push(t)) =~= toks_view(ts).push(tok_view(t)));
}

/// A token between a finished prefix and an unsplit rest may join either.
proof fn lemma_front_shift(done: Seq<TokView>, tv: TokView, rest: Seq<TokView>)
    ensures
        done + (seq![tv] + rest) == done.push(tv) + rest,
{
    assert(done + (seq![tv] + rest) =~= done.push(tv) + rest);
}

/// Turns source text into tokens; `None` on any unexpected byte.
fn tokenize(src: &Vec<u8>) -> (r: Option<Vec<Tok>>)
    ensures
        match r {
            Some(toks) => tokenize_from(src@, 0) == Some(toks_view(toks@)),
            None => tokenize_from(src@, 0) is None,
        },
{
    let mut toks: Vec<Tok> = Vec::new();
    let mut i: usize = 0;
    proof {
        match tokenize_from(src@, 0) {
            Some(r0) => {
                assert(toks_view(toks@) =~= Seq::<TokView>::empty());
                assert(toks_view(toks@) + r0 =~= r0);
            },
            None => {},
        }
    }
    while i < src.len()
        invariant
            i <= src@.len(),
            tokenize_from(src@, 0) == (match tokenize_from(src@, i as int) {
                Some(rest) => Some(toks_view(toks@) + rest),
                None => None::<Seq<TokView>>,
            }),
        decreases src@.len() - i,
    {
        let ghost toks0 = toks@;
        let ghost i0 = i;
        let b = src[i];
        if b == 0x20 || b == 0x09 || b == 0x0a || b == 0x0d {
            i += 1;
        } else if b == 0x3a {
            // :=
            if i + 1 < src.len() && src[i + 1] == 0x3d {
                toks.push(Tok::Assign);
                i += 2;
            } else {
                return None;
            }
        } else if b == 0x3d {
            // ==
            if i + 1 < src.len() && src[i + 1] == 0x3d {
                toks.push(Tok::EqEq);
                i += 2;
            } else {
                return None;
            }
        } else if b == 0x28 {
            toks.push(Tok::LParen);
            i += 1;
        } else if b == 0x29 {
            toks.push(Tok::RParen);
            i += 1;
        } else if b == 0x7b {
            toks.push(Tok::LBrace);
            i += 1;
        } else if b == 0x7d {
            toks.push(Tok::RBrace);
            i += 1;
        } else if b == 0x2b {
            toks.push(Tok::Plus);
            i += 1;
        } else if b == 0x2d {
            toks.push(Tok::Minus);
            i += 1;
        } else if b == 0x2a {
            toks.push(Tok::Star);
            i += 1;
        } else if b == 0x2f {
            toks.push(Tok::Slash);
            i += 1;
        } else if b == 0x3c {
            toks.push(Tok::Lt);
            i += 1;
        } else if b == 0x3e {
            toks.push(Tok::Gt);
            i += 1;
        } else if b == 0x22 {
            // a quoted string
            let mut j: usize = i + 1;
            let mut s: Vec<u8> = Vec::new();
            let mut closed = false;
            proof {
                assert(s@ =~= src@.subrange(i + 1, i + 1));
            }
            while j < src.len() && !closed
                invariant
                    i < j <= src@.len(),
                    i < src@.len(),
                    !closed ==> (forall|m: int| i + 1 <= m < j ==> src@[m] != 0x22) && s@
                        == src@.subrange(i + 1, j as int),
                    closed ==> j >= i + 2 && src@[j - 1] == 0x22 && (forall|m: int|
                        i + 1 <= m < j - 1 ==> src@[m] != 0x22) && s@ == src@.subrange(
                        i + 1,
                        j - 1,
                    ),
                decreases src@.len() - j,
            {
                let c = src[j];
                if c == 0x22 {
                    closed = true;
                } else {
                    s.push(c);
                    proof {
                        assert(s@ =~= src@.subrange(i + 1, j + 1));
                    }
                }
                j += 1;
            }
            if !closed {
                proof {
                    lemma_quote_end_at(src@, i + 1, src@.len() as int);
                }
                return None;
            }
            proof {
                lemma_quote_end_at(src@, i + 1, j - 1);
            }
            toks.push(Tok::StrLit(s));
            i = j;
        } else if b >= 0x30 && b <= 0x39 {
            let mut j: usize = i;
            let mut s: Vec<u8> = Vec::new();
            proof {
                assert(s@ =~= src@.subrange(i as int, i as int));
            }
            while j < src.len() && src[j] >= 0x30 && src[j] <= 0x39
                invariant
                    i <= j <= src@.len(),
                    i < src@.len(),
                    digit_byte(src@[i as int]),
                    forall|m: int| i <= m < j ==> digit_byte(src@[m]),
                    s@ == src@.subrange(i as int, j as int),
                decreases src@.len() - j,
            {
                s.push(src[j]);
                proof {
                    assert(s@ =~= src@.subrange(i as int, j + 1));
                }
                j += 1;
            }
            proof {
                lemma_digit_end_at(src@, i as int, j as int);
                assert(j > i);
            }
            match parse_int(&s) {
                Some(n) => toks.push(Tok::IntLit(n)),
                None => {
                    return None;
                },
            }
            i = j;
        } else if (b >= 0x61 && b <= 0x7a) || (b >= 0x41 && b <= 0x5a) || b == 0x5f {
            let mut j: usize = i;
            let mut s: Vec<u8> = Vec::new();
            proof {
                assert(s@ =~= src@.subrange(i as int, i as int));
            }
            while j < src.len() && ((src[j] >= 0x61 && src[j] <= 0x7a) || (src[j] >= 0x41
                && src[j] <= 0x5a) || (src[j] >= 0x30 && src[j] <= 0x39) || src[j] == 0x5f)
                invariant
                    i <= j <= src@.len(),
                    i < src@.len(),
                    ident_byte(src@[i as int]),
                    forall|m: int| i <= m < j ==> ident_byte(src@[m]),
                    s@ == src@.subrange(i as int, j as int),
                decreases src@.len() - j,
            {
                s.push(src[j]);
                proof {
                    assert(s@ =~= src@.subrange(i as int, j + 1));
                }
                j += 1;
            }
            proof {
                lemma_ident_end_at(src@, i as int, j as int);
                assert(j > i);
            }
            toks.push(keyword_or_ident(s));
            i = j;
        } else {
            return None;
        }
        proof {
            if toks@.len() > toks0.len() {
                let t = toks@.last();
                lemma_view_push(toks0, t);
                match tokenize_from(src@, i as int) {
                    Some(rest) => {
                        lemma_front_shift(toks_view(toks0), tok_view(t), rest);
                    },
                    None => {},
                }
            }
        }
    }
    Some(toks)
}

/// A word as its keyword token, or as an identifier.
fn keyword_or_ident(s: Vec<u8>) -> (r: Tok)
    ensures
        tok_view(r) == keyword_view(s@),
{
    let kw_while: Vec<u8> = vec![0x77, 0x68, 0x69, 0x6c, 0x65];
    let kw_if: Vec<u8> = vec![0x69, 0x66];
    let kw_else: Vec<u8> = vec![0x65, 0x6c, 0x73, 0x65];
    let kw_print: Vec<u8> = vec![0x70, 0x72, 0x69, 0x6e, 0x74];
    let kw_input: Vec<u8> = vec![0x69, 0x6e, 0x70, 0x75, 0x74];
    let kw_true: Vec<u8> = vec![0x74, 0x72, 0x75, 0x65];
    let kw_false: Vec<u8> = vec![0x66, 0x61, 0x6c, 0x73, 0x65];
    let kw_not: Vec<u8> = vec![0x6e, 0x6f, 0x74];
    if bytes_eq(&s, &kw_while) {
        Tok::While
    } else if bytes_eq(&s, &kw_if) {
        Tok::If
    } else if bytes_eq(&s, &kw_else) {
        Tok::Else
    } else if bytes_eq(&s, &kw_print) {
        Tok::Print
    } else if bytes_eq(&s, &kw_input) {
        Tok::Input
    } else if bytes_eq(&s, &kw_true) {
        Tok::True
    } else if bytes_eq(&s, &kw_false) {
        Tok::False
    } else if bytes_eq(&s, &kw_not) {
        Tok::Not
    } else {
        Tok::Ident(s)
    }
}

} // verus!
