//! The text-to-expression parser: a character-driven state machine that
//! folds digits, operators, runs of unary minus and bracketed sub-terms
//! into one reduced tree, using the algebra's own operators.

use vstd::prelude::*;

use crate::chars::chars_of;
use crate::errors::{MathError, TryFromStrError};
use crate::model::{all_digits, digits_val, neg_s, pow10, ExprV};
use crate::operation::number::Number;
use crate::operation::{view_seq_props, Operation};
use crate::rules::{add_rec, div_rec, mul_rec, OpOut, FUEL};
use crate::term::Term;

verus! {

broadcast use vstd::seq::axiom_seq_index_decreases, vstd::seq::axiom_seq_subrange_decreases, vstd::std_specs::vec::axiom_vec_index_decreases;

/// The operator that a pending term will be applied with.
#[derive(Debug, Clone, Copy)]
pub enum OpKind {
    Add,
    Mul,
    Div,
}

/// The executable state of a pending value.
#[derive(Debug)]
pub enum PVal {
    /// The value has not started being read yet.
    Empty,
    /// A numeric literal is being read; no decimal point seen yet.
    Pre(Vec<char>),
    /// A numeric literal is being read after its decimal point; the part
    /// before the point is already converted.
    Post(u32, Vec<char>),
    /// A bracketed sub-term is being buffered; the count is the nesting
    /// depth of brackets still open.
    Brackets(usize, Vec<char>),
}

/// The executable state of the machine.
#[derive(Debug)]
pub enum PState {
    /// A term was just completed; an operator or an implicit
    /// multiplication bracket is expected.
    AfterTerm,
    /// An operator was read; a possibly negated value is being read.
    Pending(OpKind, bool, PVal),
}

/// The ghost state of a pending value.
pub enum ValV {
    Empty,
    Pre(Seq<char>),
    Post(nat, Seq<char>),
    Brackets(nat, Seq<char>),
}

/// The ghost state of the machine.
pub enum StV {
    AfterTerm,
    Pending(OpKind, bool, ValV),
}

impl View for PVal {
    type V = ValV;

    open spec fn view(&self) -> ValV {
        match self {
            PVal::Empty => ValV::Empty,
            PVal::Pre(buf) => ValV::Pre(buf@),
            PVal::Post(pre, buf) => ValV::Post(*pre as nat, buf@),
            PVal::Brackets(depth, buf) => ValV::Brackets(*depth as nat, buf@),
        }
    }
}

impl View for PState {
    type V = StV;

    open spec fn view(&self) -> StV {
        match self {
            PState::AfterTerm => StV::AfterTerm,
            PState::Pending(op, negd, val) => StV::Pending(*op, *negd, val@),
        }
    }
}

/// The outcome of a parse.
pub enum ParseOut {
    /// The input parsed to this reduced tree.
    Done(ExprV),
    /// This character fit no grammar production in the current state.
    BadChar(char),
    /// The input ended while a literal, a bracket or an operator was still
    /// pending.
    Eof,
    /// Folding the parsed terms together failed arithmetically.
    Arith(MathError),
}

/// The result of one non-bracket-closing transition.
pub enum StepOut {
    /// The machine moves to this state with these folded accumulators.
    Next(StV, ExprV, ExprV),
    /// The parse stops with this outcome.
    Stop(ParseOut),
    /// A depth-one closing bracket: the buffer must be parsed recursively
    /// and processed under this operator and negation flag.
    Sub(OpKind, bool, Seq<char>),
}

/// A completed literal, or the arithmetic failure it ran into.
pub enum TOut {
    T(ExprV),
    Fail(MathError),
}

/// New accumulators after processing a term, or the arithmetic failure.
pub enum PAcc {
    Acc(ExprV, ExprV),
    Fail(MathError),
}

/// The error named by an unsuccessful operator outcome.
pub open spec fn err_of(o: OpOut) -> MathError {
    match o {
        OpOut::DivZero => MathError::DivisionByZero,
        OpOut::Overflow => MathError::Overflow,
        OpOut::NoFuel => MathError::DepthLimit,
        OpOut::Done(_) => MathError::DepthLimit,
    }
}

/// ASCII whitespace, skipped between tokens.
pub open spec fn is_space(c: char) -> bool {
    c == ' ' || c == '\t' || c == '\n' || c == '\r' || c == '\x0C'
}

/// An ASCII decimal digit.
pub open spec fn is_digit(c: char) -> bool {
    '0' <= c && c <= '9'
}

/// An explicit infix operator character.
pub open spec fn is_op(c: char) -> bool {
    c == '+' || c == '*' || c == '/'
}

/// The operator named by its character.
pub open spec fn op_of(c: char) -> OpKind {
    if c == '+' {
        OpKind::Add
    } else if c == '*' {
        OpKind::Mul
    } else {
        OpKind::Div
    }
}

/// A whole-number literal folded to a tree, if it fits the scalar type.
pub open spec fn lit_s(buf: Seq<char>) -> TOut {
    if digits_val(buf) > u32::MAX {
        TOut::Fail(MathError::Overflow)
    } else {
        TOut::T(ExprV::Num(digits_val(buf)))
    }
}

/// A decimal literal `pre.buf` folded to a tree: the fraction digits are
/// divided by the matching power of ten and added to the whole part, so the
/// result is reduced immediately.
pub open spec fn decimal_s(pre: nat, buf: Seq<char>) -> TOut {
    if digits_val(buf) > u32::MAX {
        TOut::Fail(MathError::Overflow)
    } else if pow10(buf.len()) > u32::MAX {
        TOut::Fail(MathError::Overflow)
    } else {
        match div_rec(
            ExprV::Num(digits_val(buf)),
            ExprV::Num(pow10(buf.len())),
            FUEL as nat,
        ) {
            OpOut::Done(d) => match add_rec(ExprV::Num(pre), d, FUEL as nat) {
                OpOut::Done(t) => TOut::T(t),
                e => TOut::Fail(err_of(e)),
            },
            e => TOut::Fail(err_of(e)),
        }
    }
}

/// Processing one completed term: a pending addition folds the working term
/// into the result and starts a new working term; a multiplication or
/// division is applied to the working term in place.  This is what gives
/// multiplication and division their higher binding without a precedence
/// table.
pub open spec fn pt_s(result: ExprV, working: ExprV, op: OpKind, negd: bool, t: ExprV) -> PAcc {
    let t2 = if negd {
        neg_s(t)
    } else {
        t
    };
    match op {
        OpKind::Add => match add_rec(result, working, FUEL as nat) {
            OpOut::Done(r2) => PAcc::Acc(r2, t2),
            e => PAcc::Fail(err_of(e)),
        },
        OpKind::Mul => match mul_rec(working, t2, FUEL as nat) {
            OpOut::Done(w2) => PAcc::Acc(result, w2),
            e => PAcc::Fail(err_of(e)),
        },
        OpKind::Div => match div_rec(working, t2, FUEL as nat) {
            OpOut::Done(w2) => PAcc::Acc(result, w2),
            e => PAcc::Fail(err_of(e)),
        },
    }
}

/// A literal completed by the character `c`, processed and followed by the
/// state that `c` opens.
pub open spec fn lit_then(
    result: ExprV,
    working: ExprV,
    op: OpKind,
    negd: bool,
    t: TOut,
    c: char,
) -> StepOut {
    match t {
        TOut::Fail(e) => StepOut::Stop(ParseOut::Arith(e)),
        TOut::T(tv) => match pt_s(result, working, op, negd, tv) {
            PAcc::Fail(e) => StepOut::Stop(ParseOut::Arith(e)),
            PAcc::Acc(r2, w2) => {
                if is_op(c) {
                    StepOut::Next(StV::Pending(op_of(c), false, ValV::Empty), r2, w2)
                } else if c == '-' {
                    StepOut::Next(StV::Pending(OpKind::Add, true, ValV::Empty), r2, w2)
                } else if c == '(' {
                    StepOut::Next(
                        StV::Pending(OpKind::Mul, false, ValV::Brackets(1, Seq::empty())),
                        r2,
                        w2,
                    )
                } else {
                    StepOut::Next(StV::AfterTerm, r2, w2)
                }
            },
        },
    }
}

/// One transition of the machine on character `c`, except the recursion
/// into a depth-one closing bracket, which is handed back as `Sub`.
pub open spec fn step_s(st: StV, c: char, result: ExprV, working: ExprV) -> StepOut {
    match st {
        StV::AfterTerm => {
            if is_op(c) {
                StepOut::Next(StV::Pending(op_of(c), false, ValV::Empty), result, working)
            } else if c == '-' {
                StepOut::Next(StV::Pending(OpKind::Add, true, ValV::Empty), result, working)
            } else if c == '(' {
                StepOut::Next(
                    StV::Pending(OpKind::Mul, false, ValV::Brackets(1, Seq::empty())),
                    result,
                    working,
                )
            } else if is_space(c) {
                StepOut::Next(StV::AfterTerm, result, working)
            } else {
                StepOut::Stop(ParseOut::BadChar(c))
            }
        },
        StV::Pending(op, negd, val) => match val {
            ValV::Empty => {
                if c == '-' {
                    StepOut::Next(StV::Pending(op, !negd, ValV::Empty), result, working)
                } else if is_digit(c) {
                    StepOut::Next(StV::Pending(op, negd, ValV::Pre(seq![c])), result, working)
                } else if c == '.' {
                    StepOut::Next(
                        StV::Pending(op, negd, ValV::Post(0, Seq::empty())),
                        result,
                        working,
                    )
                } else if c == '(' {
                    StepOut::Next(
                        StV::Pending(op, negd, ValV::Brackets(1, Seq::empty())),
                        result,
                        working,
                    )
                } else if is_space(c) {
                    StepOut::Next(StV::Pending(op, negd, ValV::Empty), result, working)
                } else {
                    StepOut::Stop(ParseOut::BadChar(c))
                }
            },
            ValV::Brackets(depth, buf) => {
                if c == '(' {
                    StepOut::Next(
                        StV::Pending(op, negd, ValV::Brackets(depth + 1, buf.push('('))),
                        result,
                        working,
                    )
                } else if c == ')' {
                    if depth == 1 {
                        StepOut::Sub(op, negd, buf)
                    } else {
                        StepOut::Next(
                            StV::Pending(
                                op,
                                negd,
                                ValV::Brackets((depth - 1) as nat, buf.push(')')),
                            ),
                            result,
                            working,
                        )
                    }
                } else {
                    StepOut::Next(
                        StV::Pending(op, negd, ValV::Brackets(depth, buf.push(c))),
                        result,
                        working,
                    )
                }
            },
            ValV::Pre(buf) => {
                if is_digit(c) {
                    StepOut::Next(StV::Pending(op, negd, ValV::Pre(buf.push(c))), result, working)
                } else if c == '.' {
                    if digits_val(buf) > u32::MAX {
                        StepOut::Stop(ParseOut::Arith(MathError::Overflow))
                    } else {
                        StepOut::Next(
                            StV::Pending(op, negd, ValV::Post(digits_val(buf), Seq::empty())),
                            result,
                            working,
                        )
                    }
                } else if is_op(c) || c == '-' || c == '(' || is_space(c) {
                    lit_then(result, working, op, negd, lit_s(buf), c)
                } else {
                    StepOut::Stop(ParseOut::BadChar(c))
                }
            },
            ValV::Post(pre, buf) => {
                if is_digit(c) {
                    StepOut::Next(
                        StV::Pending(op, negd, ValV::Post(pre, buf.push(c))),
                        result,
                        working,
                    )
                } else if is_op(c) || c == '-' || c == '(' || is_space(c) {
                    if buf.len() == 0 {
                        StepOut::Stop(ParseOut::BadChar(c))
                    } else {
                        lit_then(result, working, op, negd, decimal_s(pre, buf), c)
                    }
                } else {
                    StepOut::Stop(ParseOut::BadChar(c))
                }
            },
        },
    }
}

/// The final fold once the input has ended.
pub open spec fn finish_s(st: StV, result: ExprV, working: ExprV) -> ParseOut {
    match st {
        StV::AfterTerm => final_add(result, working),
        StV::Pending(op, negd, val) => match val {
            ValV::Empty => ParseOut::Eof,
            ValV::Brackets(_, _) => ParseOut::Eof,
            ValV::Pre(buf) => finish_lit(result, working, op, negd, lit_s(buf)),
            ValV::Post(pre, buf) => {
                if buf.len() == 0 {
                    ParseOut::Eof
                } else {
                    finish_lit(result, working, op, negd, decimal_s(pre, buf))
                }
            },
        },
    }
}

/// The last pending literal processed, then the final fold.
pub open spec fn finish_lit(
    result: ExprV,
    working: ExprV,
    op: OpKind,
    negd: bool,
    t: TOut,
) -> ParseOut {
    match t {
        TOut::Fail(e) => ParseOut::Arith(e),
        TOut::T(tv) => match pt_s(result, working, op, negd, tv) {
            PAcc::Fail(e) => ParseOut::Arith(e),
            PAcc::Acc(r2, w2) => final_add(r2, w2),
        },
    }
}

/// The sum of the folded result and the last working term.
pub open spec fn final_add(result: ExprV, working: ExprV) -> ParseOut {
    match add_rec(result, working, FUEL as nat) {
        OpOut::Done(v) => ParseOut::Done(v),
        e => ParseOut::Arith(err_of(e)),
    }
}

/// The machine run from position `i`, with one recursion per bracketed
/// sub-term; a bracket buffer is always shorter than the text it came from,
/// which bounds that recursion.
pub open spec fn parse_run(
    s: Seq<char>,
    i: int,
    st: StV,
    result: ExprV,
    working: ExprV,
) -> ParseOut
    decreases s.len(), (if i >= 0 { s.len() - i + 1 } else { 0int }),
{
    if i < 0 {
        ParseOut::Eof
    } else if i >= s.len() {
        finish_s(st, result, working)
    } else {
        match step_s(st, s[i], result, working) {
            StepOut::Next(st2, r2, w2) => parse_run(s, i + 1, st2, r2, w2),
            StepOut::Stop(o) => o,
            StepOut::Sub(op, negd, buf) => {
                if buf.len() < s.len() {
                    match parse_run(
                        buf,
                        0,
                        StV::Pending(OpKind::Add, false, ValV::Empty),
                        ExprV::Num(0),
                        ExprV::Num(0),
                    ) {
                        ParseOut::Done(sub) => match pt_s(result, working, op, negd, sub) {
                            PAcc::Acc(r2, w2) => parse_run(s, i + 1, StV::AfterTerm, r2, w2),
                            PAcc::Fail(e) => ParseOut::Arith(e),
                        },
                        other => other,
                    }
                } else {
                    ParseOut::Eof
                }
            },
        }
    }
}

/// The whole text parsed from its start.
pub open spec fn parse_full(s: Seq<char>) -> ParseOut {
    parse_run(
        s,
        0,
        StV::Pending(OpKind::Add, false, ValV::Empty),
        ExprV::Num(0),
        ExprV::Num(0),
    )
}

/// How a parse result corresponds to the outcome of the specification.
pub open spec fn matches_parse(r: Result<Operation, TryFromStrError>, o: ParseOut) -> bool {
    match o {
        ParseOut::Done(v) => r matches Ok(op) && op@ == v,
        ParseOut::BadChar(c) => r == Result::<Operation, TryFromStrError>::Err(
            TryFromStrError::UnexpectedCharacter(c),
        ),
        ParseOut::Eof => r == Result::<Operation, TryFromStrError>::Err(
            TryFromStrError::UnexpectedEof,
        ),
        ParseOut::Arith(e) => r == Result::<Operation, TryFromStrError>::Err(
            TryFromStrError::Arithmetic(e),
        ),
    }
}

/// How a term-level parse result corresponds to the outcome.
pub open spec fn matches_parse_term(r: Result<Term, TryFromStrError>, o: ParseOut) -> bool {
    match o {
        ParseOut::Done(v) => r matches Ok(t) && t@ == v,
        ParseOut::BadChar(c) => r == Result::<Term, TryFromStrError>::Err(
            TryFromStrError::UnexpectedCharacter(c),
        ),
        ParseOut::Eof => r == Result::<Term, TryFromStrError>::Err(TryFromStrError::UnexpectedEof),
        ParseOut::Arith(e) => r == Result::<Term, TryFromStrError>::Err(
            TryFromStrError::Arithmetic(e),
        ),
    }
}

/// The state is well formed: literal buffers hold digits only, a whole part
/// fits the scalar, and a bracket depth never exceeds one more than the
/// characters buffered since the bracket opened.
pub open spec fn wf_st(st: StV) -> bool {
    match st {
        StV::AfterTerm => true,
        StV::Pending(_, _, val) => match val {
            ValV::Empty => true,
            ValV::Pre(buf) => all_digits(buf) && buf.len() >= 1,
            ValV::Post(pre, buf) => all_digits(buf) && pre <= u32::MAX,
            ValV::Brackets(depth, buf) => 1 <= depth && depth <= buf.len() + 1,
        },
    }
}

/// The characters buffered for a pending bracket, none elsewhere.
pub open spec fn bracket_len(st: StV) -> nat {
    match st {
        StV::Pending(_, _, ValV::Brackets(_, buf)) => buf.len(),
        _ => 0,
    }
}

/// The parse outcome named by a reported error.
pub open spec fn perr(e: TryFromStrError) -> ParseOut {
    match e {
        TryFromStrError::UnexpectedCharacter(c) => ParseOut::BadChar(c),
        TryFromStrError::UnexpectedEof => ParseOut::Eof,
        TryFromStrError::Arithmetic(m) => ParseOut::Arith(m),
    }
}

/// A digit run is worth no less than any of its prefixes.
pub proof fn lemma_digits_prefix(s: Seq<char>, j: int)
    requires
        all_digits(s),
        0 <= j <= s.len(),
    ensures
        digits_val(s.subrange(0, j)) <= digits_val(s),
    decreases s.len() - j,
{
    if j < s.len() {
        lemma_digits_prefix(s, j + 1);
        assert(s.subrange(0, j + 1).drop_last() =~= s.subrange(0, j));
        assert(s.subrange(0, j + 1).last() == s[j]);
    } else {
        assert(s.subrange(0, j) =~= s);
    }
}

/// Powers of ten are positive.
pub proof fn lemma_pow10_pos(k: nat)
    ensures
        pow10(k) >= 1,
    decreases k,
{
    if k > 0 {
        lemma_pow10_pos((k - 1) as nat);
    }
}

/// Powers of ten do not decrease.
pub proof fn lemma_pow10_mono(j: nat, k: nat)
    requires
        j <= k,
    ensures
        pow10(j) <= pow10(k),
    decreases k - j,
{
    if j < k {
        lemma_pow10_mono(j, (k - 1) as nat);
        lemma_pow10_pos((k - 1) as nat);
    }
}

/// The value of a digit run, when it fits the scalar type.
#[verifier::loop_isolation(false)]
fn digits_to_u32(buf: &Vec<char>) -> (r: Option<u32>)
    requires
        all_digits(buf@),
    ensures
        match r {
            Some(v) => digits_val(buf@) <= u32::MAX && v as nat == digits_val(buf@),
            None => digits_val(buf@) > u32::MAX,
        },
{
    let mut acc: u32 = 0;
    let mut i: usize = 0;
    while i < buf.len()
        invariant
            0 <= i <= buf@.len(),
            acc as nat == digits_val(buf@.subrange(0, i as int)),
        decreases buf@.len() - i,
    {
        let d = (buf[i] as u32) - 48;
        proof {
            assert(buf@.subrange(0, i + 1).drop_last() =~= buf@.subrange(0, i as int));
            assert(buf@.subrange(0, i + 1).last() == buf@[i as int]);
        }
        let m = match acc.checked_mul(10) {
            Some(v) => v,
            None => {
                proof {
                    lemma_digits_prefix(buf@, i + 1);
                }
                return None;
            },
        };
        acc = match m.checked_add(d) {
            Some(v) => v,
            None => {
                proof {
                    lemma_digits_prefix(buf@, i + 1);
                }
                return None;
            },
        };
        i = i + 1;
    }
    proof {
        assert(buf@.subrange(0, buf@.len() as int) =~= buf@);
    }
    Some(acc)
}

/// The `k`-th power of ten, when it fits the scalar type.
#[verifier::loop_isolation(false)]
fn pow10_u32(k: usize) -> (r: Option<u32>)
    ensures
        match r {
            Some(v) => pow10(k as nat) <= u32::MAX && v as nat == pow10(k as nat),
            None => pow10(k as nat) > u32::MAX,
        },
{
    let mut acc: u32 = 1;
    let mut j: usize = 0;
    while j < k
        invariant
            0 <= j <= k,
            acc as nat == pow10(j as nat),
        decreases k - j,
    {
        acc = match acc.checked_mul(10) {
            Some(v) => v,
            None => {
                proof {
                    lemma_pow10_mono(j as nat + 1, k as nat);
                }
                return None;
            },
        };
        j = j + 1;
    }
    Some(acc)
}

/// A whole-number literal folded to a tree.
fn lit_exec(buf: &Vec<char>) -> (r: Result<Operation, MathError>)
    requires
        all_digits(buf@),
    ensures
        match lit_s(buf@) {
            TOut::T(v) => r matches Ok(op) && op@ == v,
            TOut::Fail(e) => r == Result::<Operation, MathError>::Err(e),
        },
{
    match digits_to_u32(buf) {
        Some(v) => Ok(Operation::Number(Number { value: v })),
        None => Err(MathError::Overflow),
    }
}

/// A decimal literal folded to a tree through the generic operators.
fn decimal_exec(pre: u32, buf: &Vec<char>) -> (r: Result<Operation, MathError>)
    requires
        all_digits(buf@),
    ensures
        match decimal_s(pre as nat, buf@) {
            TOut::T(v) => r matches Ok(op) && op@ == v,
            TOut::Fail(e) => r == Result::<Operation, MathError>::Err(e),
        },
{
    let fv = match digits_to_u32(buf) {
        Some(v) => v,
        None => {
            return Err(MathError::Overflow);
        },
    };
    let p10 = match pow10_u32(buf.len()) {
        Some(v) => v,
        None => {
            return Err(MathError::Overflow);
        },
    };
    let d = match Operation::Number(Number { value: fv }).div_fuel(
        Operation::Number(Number { value: p10 }),
        FUEL,
    ) {
        Ok(v) => v,
        Err(e) => {
            return Err(e);
        },
    };
    match Operation::Number(Number { value: pre }).add_fuel(d, FUEL) {
        Ok(v) => Ok(v),
        Err(e) => Err(e),
    }
}

/// Processing one completed term against the running accumulators.
fn process_term(
    result: Operation,
    working: Operation,
    op: OpKind,
    negd: bool,
    t: Operation,
) -> (r: Result<(Operation, Operation), MathError>)
    ensures
        match pt_s(result@, working@, op, negd, t@) {
            PAcc::Acc(r2, w2) => r matches Ok(p) && p.0@ == r2 && p.1@ == w2,
            PAcc::Fail(e) => r == Result::<(Operation, Operation), MathError>::Err(e),
        },
{
    let t2 = if negd {
        t.neg()
    } else {
        t
    };
    match op {
        OpKind::Add => match result.add_fuel(working, FUEL) {
            Ok(r2) => Ok((r2, t2)),
            Err(e) => Err(e),
        },
        OpKind::Mul => match working.mul_fuel(t2, FUEL) {
            Ok(w2) => Ok((result, w2)),
            Err(e) => Err(e),
        },
        OpKind::Div => match working.div_fuel(t2, FUEL) {
            Ok(w2) => Ok((result, w2)),
            Err(e) => Err(e),
        },
    }
}

/// ASCII whitespace.
fn is_space_c(c: char) -> (r: bool)
    ensures
        r == is_space(c),
{
    c == ' ' || c == '\t' || c == '\n' || c == '\r' || c == '\x0C'
}

/// An ASCII decimal digit.
fn is_digit_c(c: char) -> (r: bool)
    ensures
        r == is_digit(c),
{
    let u = c as u32;
    48 <= u && u <= 57
}

/// The result of one executable transition.
pub enum StepExec {
    /// The machine moves to this state with these folded accumulators.
    Next(PState, Operation, Operation),
    /// The parse stops with this error.
    Stop(TryFromStrError),
    /// A depth-one closing bracket: the buffer must be parsed recursively;
    /// the accumulators are handed back untouched.
    Sub(OpKind, bool, Vec<char>, Operation, Operation),
}

/// One transition of the machine on character `c`.
fn step_exec(st: PState, c: char, result: Operation, working: Operation) -> (r: StepExec)
    requires
        wf_st(st@),
        st@ matches StV::Pending(op, negd, ValV::Brackets(d, buf)) ==> buf.len() + 2
            <= usize::MAX,
    ensures
        match r {
            StepExec::Next(s2, r2, w2) => step_s(st@, c, result@, working@) == StepOut::Next(
                s2@,
                r2@,
                w2@,
            ) && wf_st(s2@) && bracket_len(s2@) <= bracket_len(st@) + 1,
            StepExec::Stop(e) => step_s(st@, c, result@, working@) == StepOut::Stop(perr(e)),
            StepExec::Sub(op, negd, buf, r2, w2) => step_s(st@, c, result@, working@)
                == StepOut::Sub(op, negd, buf@) && r2@ == result@ && w2@ == working@,
        },
{
    match st {
        PState::AfterTerm => {
            if c == '+' || c == '*' || c == '/' {
                let op = if c == '+' {
                    OpKind::Add
                } else if c == '*' {
                    OpKind::Mul
                } else {
                    OpKind::Div
                };
                StepExec::Next(PState::Pending(op, false, PVal::Empty), result, working)
            } else if c == '-' {
                StepExec::Next(PState::Pending(OpKind::Add, true, PVal::Empty), result, working)
            } else if c == '(' {
                StepExec::Next(
                    PState::Pending(OpKind::Mul, false, PVal::Brackets(1, Vec::new())),
                    result,
                    working,
                )
            } else if is_space_c(c) {
                StepExec::Next(PState::AfterTerm, result, working)
            } else {
                StepExec::Stop(TryFromStrError::UnexpectedCharacter(c))
            }
        },
        PState::Pending(op, negd, val) => match val {
            PVal::Empty => {
                if c == '-' {
                    StepExec::Next(PState::Pending(op, !negd, PVal::Empty), result, working)
                } else if is_digit_c(c) {
                    let mut b: Vec<char> = Vec::new();
                    b.push(c);
                    proof {
                        assert(all_digits(b@));
                    }
                    StepExec::Next(PState::Pending(op, negd, PVal::Pre(b)), result, working)
                } else if c == '.' {
                    StepExec::Next(
                        PState::Pending(op, negd, PVal::Post(0, Vec::new())),
                        result,
                        working,
                    )
                } else if c == '(' {
                    StepExec::Next(
                        PState::Pending(op, negd, PVal::Brackets(1, Vec::new())),
                        result,
                        working,
                    )
                } else if is_space_c(c) {
                    StepExec::Next(PState::Pending(op, negd, PVal::Empty), result, working)
                } else {
                    StepExec::Stop(TryFromStrError::UnexpectedCharacter(c))
                }
            },
            PVal::Brackets(depth, mut buf) => {
                if c == '(' {
                    buf.push('(');
                    StepExec::Next(
                        PState::Pending(op, negd, PVal::Brackets(depth + 1, buf)),
                        result,
                        working,
                    )
                } else if c == ')' {
                    if depth == 1 {
                        StepExec::Sub(op, negd, buf, result, working)
                    } else {
                        buf.push(')');
                        StepExec::Next(
                            PState::Pending(op, negd, PVal::Brackets(depth - 1, buf)),
                            result,
                            working,
                        )
                    }
                } else {
                    buf.push(c);
                    StepExec::Next(
                        PState::Pending(op, negd, PVal::Brackets(depth, buf)),
                        result,
                        working,
                    )
                }
            },
            PVal::Pre(mut buf) => {
                if is_digit_c(c) {
                    let ghost b0 = buf@;
                    buf.push(c);
                    proof {
                        assert(all_digits(buf@));
                    }
                    StepExec::Next(PState::Pending(op, negd, PVal::Pre(buf)), result, working)
                } else if c == '.' {
                    match digits_to_u32(&buf) {
                        Some(pre) => StepExec::Next(
                            PState::Pending(op, negd, PVal::Post(pre, Vec::new())),
                            result,
                            working,
                        ),
                        None => StepExec::Stop(TryFromStrError::Arithmetic(MathError::Overflow)),
                    }
                } else if c == '+' || c == '*' || c == '/' || c == '-' || c == '('
                    || is_space_c(c) {
                    match lit_exec(&buf) {
                        Ok(t) => step_after_literal(result, working, op, negd, t, c),
                        Err(e) => StepExec::Stop(TryFromStrError::Arithmetic(e)),
                    }
                } else {
                    StepExec::Stop(TryFromStrError::UnexpectedCharacter(c))
                }
            },
            PVal::Post(pre, mut buf) => {
                if is_digit_c(c) {
                    buf.push(c);
                    proof {
                        assert(all_digits(buf@));
                    }
                    StepExec::Next(
                        PState::Pending(op, negd, PVal::Post(pre, buf)),
                        result,
                        working,
                    )
                } else if c == '+' || c == '*' || c == '/' || c == '-' || c == '('
                    || is_space_c(c) {
                    if buf.len() == 0 {
                        StepExec::Stop(TryFromStrError::UnexpectedCharacter(c))
                    } else {
                        match decimal_exec(pre, &buf) {
                            Ok(t) => step_after_literal(result, working, op, negd, t, c),
                            Err(e) => StepExec::Stop(TryFromStrError::Arithmetic(e)),
                        }
                    }
                } else {
                    StepExec::Stop(TryFromStrError::UnexpectedCharacter(c))
                }
            },
        },
    }
}

/// A completed literal processed, followed by the state that `c` opens.
fn step_after_literal(
    result: Operation,
    working: Operation,
    op: OpKind,
    negd: bool,
    t: Operation,
    c: char,
) -> (r: StepExec)
    ensures
        match r {
            StepExec::Next(s2, r2, w2) => lit_then(
                result@,
                working@,
                op,
                negd,
                TOut::T(t@),
                c,
            ) == StepOut::Next(s2@, r2@, w2@) && wf_st(s2@) && bracket_len(s2@) == 0,
            StepExec::Stop(e) => lit_then(result@, working@, op, negd, TOut::T(t@), c)
                == StepOut::Stop(perr(e)),
            StepExec::Sub(..) => false,
        },
{
    match process_term(result, working, op, negd, t) {
        Err(e) => StepExec::Stop(TryFromStrError::Arithmetic(e)),
        Ok(pair) => {
            let (r2, w2) = pair;
            if c == '+' || c == '*' || c == '/' {
                let op2 = if c == '+' {
                    OpKind::Add
                } else if c == '*' {
                    OpKind::Mul
                } else {
                    OpKind::Div
                };
                StepExec::Next(PState::Pending(op2, false, PVal::Empty), r2, w2)
            } else if c == '-' {
                StepExec::Next(PState::Pending(OpKind::Add, true, PVal::Empty), r2, w2)
            } else if c == '(' {
                StepExec::Next(
                    PState::Pending(OpKind::Mul, false, PVal::Brackets(1, Vec::new())),
                    r2,
                    w2,
                )
            } else {
                StepExec::Next(PState::AfterTerm, r2, w2)
            }
        },
    }
}

/// The final fold once the input has ended.
fn finish_exec(st: PState, result: Operation, working: Operation) -> (r: Result<
    Operation,
    TryFromStrError,
>)
    requires
        wf_st(st@),
    ensures
        matches_parse(r, finish_s(st@, result@, working@)),
{
    match st {
        PState::AfterTerm => final_add_exec(result, working),
        PState::Pending(op, negd, val) => match val {
            PVal::Empty => Err(TryFromStrError::UnexpectedEof),
            PVal::Brackets(_, _) => Err(TryFromStrError::UnexpectedEof),
            PVal::Pre(buf) => match lit_exec(&buf) {
                Ok(t) => match process_term(result, working, op, negd, t) {
                    Ok(pair) => final_add_exec(pair.0, pair.1),
                    Err(e) => Err(TryFromStrError::Arithmetic(e)),
                },
                Err(e) => Err(TryFromStrError::Arithmetic(e)),
            },
            PVal::Post(pre, buf) => {
                if buf.len() == 0 {
                    Err(TryFromStrError::UnexpectedEof)
                } else {
                    match decimal_exec(pre, &buf) {
                        Ok(t) => match process_term(result, working, op, negd, t) {
                            Ok(pair) => final_add_exec(pair.0, pair.1),
                            Err(e) => Err(TryFromStrError::Arithmetic(e)),
                        },
                        Err(e) => Err(TryFromStrError::Arithmetic(e)),
                    }
                }
            },
        },
    }
}

/// The sum of the folded result and the last working term.
fn final_add_exec(result: Operation, working: Operation) -> (r: Result<
    Operation,
    TryFromStrError,
>)
    ensures
        matches_parse(r, final_add(result@, working@)),
{
    match result.add_fuel(working, FUEL) {
        Ok(v) => Ok(v),
        Err(e) => Err(TryFromStrError::Arithmetic(e)),
    }
}

/// The machine run over a character list; brackets recurse on their
/// buffered content, which is always shorter than this list.
#[verifier::loop_isolation(false)]
fn parse_vec(chars: &Vec<char>) -> (r: Result<Operation, TryFromStrError>)
    ensures
        matches_parse(r, parse_full(chars@)),
    decreases chars@.len(),
{
    let ghost s0 = chars@;
    let mut st = PState::Pending(OpKind::Add, false, PVal::Empty);
    let mut result = Operation::Number(Number { value: 0 });
    let mut working = Operation::Number(Number { value: 0 });
    let mut i: usize = 0;
    while i < chars.len()
        invariant
            0 <= i <= s0.len(),
            wf_st(st@),
            st@ matches StV::Pending(op, negd, ValV::Brackets(d, buf)) ==> buf.len() + 1
                <= i,
            parse_full(s0) == parse_run(s0, i as int, st@, result@, working@),
        decreases s0.len() - i,
    {
        let c = chars[i];
        match step_exec(st, c, result, working) {
            StepExec::Next(s2, r2, w2) => {
                st = s2;
                result = r2;
                working = w2;
            },
            StepExec::Stop(e) => {
                return Err(e);
            },
            StepExec::Sub(op, negd, buf, r_back, w_back) => {
                proof {
                    assert(buf@.len() < s0.len());
                }
                let sub = match parse_vec(&buf) {
                    Ok(v) => v,
                    Err(e) => {
                        return Err(e);
                    },
                };
                match process_term(r_back, w_back, op, negd, sub) {
                    Ok(pair) => {
                        result = pair.0;
                        working = pair.1;
                        st = PState::AfterTerm;
                    },
                    Err(e) => {
                        return Err(TryFromStrError::Arithmetic(e));
                    },
                }
            },
        }
        i = i + 1;
    }
    finish_exec(st, result, working)
}

/// Parses an arithmetic string into a reduced term: integers, decimals,
/// the four infix operators, runs of unary minus, brackets with implicit
/// multiplication on juxtaposition, and ASCII whitespace between tokens.
pub fn parse_string(value: &str) -> (r: Result<Term, TryFromStrError>)
    ensures
        matches_parse_term(r, parse_full(value@)),
{
    let chars = chars_of(value);
    match parse_vec(&chars) {
        Ok(op) => Ok(Term::of_operation(op)),
        Err(e) => Err(e),
    }
}

} // verus!
