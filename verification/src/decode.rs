use crate::cpu::RegisterId;
use vstd::prelude::*;

verus! {

/// The closed instruction set of the machine. Offsets are signed and relative
/// to the instruction's own position; registers are named by `RegisterId`.
#[derive(Clone, Copy, PartialEq, Eq, Structural, Debug)]
pub enum Instruction {
    /// Halve the register (integer division, truncating), then advance.
    Half(RegisterId),
    /// Multiply the register by 3, then advance.
    Triple(RegisterId),
    /// Add 1 to the register, then advance.
    Increment(RegisterId),
    /// Unconditional relative jump by the offset.
    Jump(i64),
    /// Relative jump by the offset when the register is even, else advance.
    JumpIfEven(RegisterId, i64),
    /// Relative jump by the offset when the register is exactly 1, else advance.
    JumpIfOne(RegisterId, i64),
}

/// Why a raw line failed to decode.
#[derive(Clone, Copy, PartialEq, Eq, Structural, Debug)]
pub enum DecodeReason {
    UnknownOpcode,
    WrongOperandCount,
    UnknownRegister,
    MalformedOffset,
}

/// A decode failure: the offending line together with the reason.
#[derive(Debug)]
pub struct DecodeError {
    pub line: String,
    pub reason: DecodeReason,
}

/// The wording of each decode-failure reason.
pub open spec fn spec_reason_text(r: DecodeReason) -> Seq<char> {
    match r {
        DecodeReason::UnknownOpcode => "unknown opcode"@,
        DecodeReason::WrongOperandCount => "wrong operand count"@,
        DecodeReason::UnknownRegister => "unknown register"@,
        DecodeReason::MalformedOffset => "malformed offset"@,
    }
}

impl DecodeError {
    /// A short human-readable description of why the line was rejected.
    pub fn reason_text(&self) -> (t: &'static str)
        ensures
            t@ == spec_reason_text(self.reason),
    {
        match self.reason {
            DecodeReason::UnknownOpcode => "unknown opcode",
            DecodeReason::WrongOperandCount => "wrong operand count",
            DecodeReason::UnknownRegister => "unknown register",
            DecodeReason::MalformedOffset => "malformed offset",
        }
    }
}

/// The tokens of `s`, split on single spaces. Splitting an empty text yields
/// one empty token, and each space ends the token before it, exactly as
/// `str::split(' ')` does.
pub open spec fn spec_tokens(s: Seq<char>) -> Seq<Seq<char>>
    decreases s.len(),
{
    if s.len() == 0 {
        seq![Seq::empty()]
    } else {
        let prev = spec_tokens(s.drop_last());
        if s.last() == ' ' {
            prev.push(Seq::empty())
        } else {
            prev.update(prev.len() - 1, prev.last().push(s.last()))
        }
    }
}

/// An operand token with one trailing comma removed: the textual format lets a
/// register operand carry a trailing separator before the next field.
pub open spec fn strip_separator(t: Seq<char>) -> Seq<char> {
    if t.len() > 0 && t.last() == ',' {
        t.drop_last()
    } else {
        t
    }
}

/// The register named by an (already stripped) operand token, if any.
pub open spec fn spec_register(t: Seq<char>) -> Option<RegisterId> {
    if t == seq!['a'] {
        Some(RegisterId::A)
    } else if t == seq!['b'] {
        Some(RegisterId::B)
    } else {
        None
    }
}

pub open spec fn is_digit(c: char) -> bool {
    48 <= c as u32 <= 57
}

pub open spec fn digit_val(c: char) -> int {
    c as u32 - 48
}

/// The value of a sequence of decimal digit characters, most significant first.
pub open spec fn digits_value(t: Seq<char>) -> int
    decreases t.len(),
{
    if t.len() == 0 {
        0
    } else {
        digits_value(t.drop_last()) * 10 + digit_val(t.last())
    }
}

/// Whether an (already stripped) token has the shape of an offset: an explicit
/// sign character followed by at least one decimal digit.
pub open spec fn offset_shape(t: Seq<char>) -> bool {
    &&& t.len() >= 2
    &&& (t[0] == '+' || t[0] == '-')
    &&& forall|i: int| 1 <= i < t.len() ==> is_digit(t[i])
}

/// The signed value written by an offset-shaped token.
pub open spec fn offset_value(t: Seq<char>) -> int {
    let magnitude = digits_value(t.subrange(1, t.len() as int));
    if t[0] == '-' {
        -magnitude
    } else {
        magnitude
    }
}

/// The offset denoted by an (already stripped) operand token: `Some` exactly
/// when the token is sign-then-digits and its value fits the offset width.
pub open spec fn spec_offset(t: Seq<char>) -> Option<int> {
    if offset_shape(t) && i64::MIN <= offset_value(t) <= i64::MAX {
        Some(offset_value(t))
    } else {
        None
    }
}

/// The register operand of a one-operand instruction, from the full token list.
pub open spec fn spec_reg_operand(toks: Seq<Seq<char>>) -> Result<RegisterId, DecodeReason> {
    if toks.len() != 2 {
        Err(DecodeReason::WrongOperandCount)
    } else {
        match spec_register(strip_separator(toks[1])) {
            Some(r) => Ok(r),
            None => Err(DecodeReason::UnknownRegister),
        }
    }
}

/// The offset operand of an unconditional jump, from the full token list.
pub open spec fn spec_jump_operand(toks: Seq<Seq<char>>) -> Result<i64, DecodeReason> {
    if toks.len() != 2 {
        Err(DecodeReason::WrongOperandCount)
    } else {
        match spec_offset(strip_separator(toks[1])) {
            Some(v) => Ok(v as i64),
            None => Err(DecodeReason::MalformedOffset),
        }
    }
}

/// The register and offset operands of a conditional jump, from the full token
/// list. A bad register is reported before a bad offset.
pub open spec fn spec_cond_operands(toks: Seq<Seq<char>>) -> Result<
    (RegisterId, i64),
    DecodeReason,
> {
    if toks.len() != 3 {
        Err(DecodeReason::WrongOperandCount)
    } else {
        match spec_register(strip_separator(toks[1])) {
            Some(r) => match spec_offset(strip_separator(toks[2])) {
                Some(v) => Ok((r, v as i64)),
                None => Err(DecodeReason::MalformedOffset),
            },
            None => Err(DecodeReason::UnknownRegister),
        }
    }
}

/// What one raw line decodes to: the instruction it writes down, or the reason
/// it is rejected. The first token names the opcode; the rest are operands.
pub open spec fn spec_decode(line: Seq<char>) -> Result<Instruction, DecodeReason> {
    let toks = spec_tokens(line);
    let op = toks[0];
    if op == seq!['h', 'l', 'f'] {
        match spec_reg_operand(toks) {
            Ok(r) => Ok(Instruction::Half(r)),
            Err(e) => Err(e),
        }
    } else if op == seq!['t', 'p', 'l'] {
        match spec_reg_operand(toks) {
            Ok(r) => Ok(Instruction::Triple(r)),
            Err(e) => Err(e),
        }
    } else if op == seq!['i', 'n', 'c'] {
        match spec_reg_operand(toks) {
            Ok(r) => Ok(Instruction::Increment(r)),
            Err(e) => Err(e),
        }
    } else if op == seq!['j', 'm', 'p'] {
        match spec_jump_operand(toks) {
            Ok(v) => Ok(Instruction::Jump(v)),
            Err(e) => Err(e),
        }
    } else if op == seq!['j', 'i', 'e'] {
        match spec_cond_operands(toks) {
            Ok((r, v)) => Ok(Instruction::JumpIfEven(r, v)),
            Err(e) => Err(e),
        }
    } else if op == seq!['j', 'i', 'o'] {
        match spec_cond_operands(toks) {
            Ok((r, v)) => Ok(Instruction::JumpIfOne(r, v)),
            Err(e) => Err(e),
        }
    } else {
        Err(DecodeReason::UnknownOpcode)
    }
}

/// The views of a sequence of character-vector tokens.
pub open spec fn token_views(toks: Seq<Vec<char>>) -> Seq<Seq<char>> {
    Seq::new(toks.len(), |i: int| toks[i]@)
}

proof fn lemma_token_views_push(toks: Seq<Vec<char>>, t: Vec<char>)
    ensures
        token_views(toks.push(t)) == token_views(toks).push(t@),
{
    assert(token_views(toks.push(t)) =~= token_views(toks).push(t@));
}

/// Splits a raw line into its tokens, one boundary at each space character.
fn tokenize(line: &str) -> (toks: Vec<Vec<char>>)
    ensures
        token_views(toks@) == spec_tokens(line@),
        toks@.len() >= 1,
{
    let n = line.unicode_len();
    let mut toks: Vec<Vec<char>> = Vec::new();
    let mut cur: Vec<char> = Vec::new();
    let mut i: usize = 0;
    while i < n
        invariant
            i <= n,
            n == line@.len(),
            spec_tokens(line@.subrange(0, i as int)) == token_views(toks@).push(cur@),
        decreases n - i,
    {
        let c = line.get_char(i);
        proof {
            assert(line@.subrange(0, (i + 1) as int).drop_last() =~= line@.subrange(
                0,
                i as int,
            ));
            assert(line@.subrange(0, (i + 1) as int).last() == c);
        }
        let ghost prev_toks = toks@;
        let ghost prev_cur = cur@;
        if c == ' ' {
            let ghost moved = cur;
            toks.push(cur);
            cur = Vec::new();
            proof {
                lemma_token_views_push(prev_toks, moved);
                assert(cur@ =~= Seq::<char>::empty());
            }
        } else {
            cur.push(c);
            proof {
                assert(token_views(prev_toks).push(prev_cur).update(
                    token_views(prev_toks).len() as int,
                    prev_cur.push(c),
                ) =~= token_views(prev_toks).push(prev_cur.push(c)));
            }
        }
        i += 1;
    }
    proof {
        assert(line@.subrange(0, n as int) =~= line@);
    }
    let ghost final_toks = toks@;
    let ghost final_cur = cur;
    toks.push(cur);
    proof {
        lemma_token_views_push(final_toks, final_cur);
    }
    toks
}

/// Whether a token spells the three-character opcode `c0 c1 c2`.
fn opcode_is(t: &Vec<char>, c0: char, c1: char, c2: char) -> (r: bool)
    ensures
        r == (t@ == seq![c0, c1, c2]),
{
    if t.len() == 3 {
        let r = t[0] == c0 && t[1] == c1 && t[2] == c2;
        proof {
            if r {
                assert(t@ =~= seq![c0, c1, c2]);
            }
        }
        r
    } else {
        false
    }
}

/// Reads a register operand token, stripping one trailing comma if present.
fn parse_register(t: &Vec<char>) -> (r: Option<RegisterId>)
    ensures
        r == spec_register(strip_separator(t@)),
{
    let len = t.len();
    let n: usize = if len > 0 && t[len - 1] == ',' {
        len - 1
    } else {
        len
    };
    proof {
        assert(strip_separator(t@) =~= t@.subrange(0, n as int));
    }
    if n == 1 && t[0] == 'a' {
        proof {
            assert(t@.subrange(0, 1) =~= seq!['a']);
        }
        Some(RegisterId::A)
    } else if n == 1 && t[0] == 'b' {
        proof {
            assert(t@.subrange(0, 1) =~= seq!['b']);
            assert(seq!['a'][0] == 'a' && t@.subrange(0, 1)[0] == 'b');
        }
        Some(RegisterId::B)
    } else {
        proof {
            let s = strip_separator(t@);
            assert(seq!['a'].len() == 1 && seq!['a'][0] == 'a');
            assert(seq!['b'].len() == 1 && seq!['b'][0] == 'b');
            if n == 1 {
                assert(s[0] == t@[0]);
            }
        }
        None
    }
}

proof fn lemma_digits_nonneg(d: Seq<char>)
    requires
        forall|i: int| 0 <= i < d.len() ==> is_digit(d[i]),
    ensures
        digits_value(d) >= 0,
    decreases d.len(),
{
    if d.len() > 0 {
        lemma_digits_nonneg(d.drop_last());
    }
}

/// Appending further digits never shrinks the value a digit sequence denotes.
proof fn lemma_digits_prefix(d: Seq<char>, k: int)
    requires
        0 <= k <= d.len(),
        forall|i: int| 0 <= i < d.len() ==> is_digit(d[i]),
    ensures
        digits_value(d) >= digits_value(d.subrange(0, k)),
    decreases d.len() - k,
{
    if k == d.len() {
        assert(d.subrange(0, k) =~= d);
    } else {
        lemma_digits_prefix(d, k + 1);
        let p = d.subrange(0, k + 1);
        assert(p.drop_last() =~= d.subrange(0, k));
        lemma_digits_nonneg(d.subrange(0, k));
    }
}

/// The largest magnitude a positive offset may carry.
pub const POS_MAGNITUDE_CAP: u64 = 9223372036854775807;

/// The largest magnitude a negative offset may carry.
pub const NEG_MAGNITUDE_CAP: u64 = 9223372036854775808;

/// Reads a signed offset operand token, stripping one trailing comma if
/// present: an explicit sign, then digits, rejected when the value does not
/// fit the offset width.
fn parse_offset(t: &Vec<char>) -> (r: Option<i64>)
    ensures
        ({
            let s = strip_separator(t@);
            match r {
                Some(v) => spec_offset(s) == Some(v as int),
                None => spec_offset(s) is None,
            }
        }),
{
    let len = t.len();
    let n: usize = if len > 0 && t[len - 1] == ',' {
        len - 1
    } else {
        len
    };
    let ghost s = strip_separator(t@);
    proof {
        assert(s =~= t@.subrange(0, n as int));
    }
    if n < 2 {
        return None;
    }
    let sign = t[0];
    if sign != '+' && sign != '-' {
        return None;
    }
    let neg = sign == '-';
    let cap: u64 = if neg {
        NEG_MAGNITUDE_CAP
    } else {
        POS_MAGNITUDE_CAP
    };
    let ghost digits = s.subrange(1, n as int);
    proof {
        assert(digits =~= t@.subrange(1, n as int));
        assert(t@.subrange(1, 1) =~= Seq::<char>::empty());
    }
    let mut acc: u64 = 0;
    let mut i: usize = 1;
    while i < n
        invariant
            1 <= i <= n,
            n <= t@.len(),
            2 <= n,
            s == strip_separator(t@),
            s == t@.subrange(0, n as int),
            digits == t@.subrange(1, n as int),
            s[0] == sign,
            neg == (sign == '-'),
            sign == '+' || sign == '-',
            cap == if neg {
                NEG_MAGNITUDE_CAP
            } else {
                POS_MAGNITUDE_CAP
            },
            forall|j: int| 1 <= j < i ==> is_digit(t@[j]),
            acc == digits_value(t@.subrange(1, i as int)),
            acc <= cap,
        decreases n - i,
    {
        let c = t[i];
        let u = c as u32;
        if u < 48 || u > 57 {
            // The token is not sign-then-digits, so no offset is denoted.
            proof {
                assert(!is_digit(s[i as int]));
                assert(!offset_shape(s));
            }
            return None;
        }
        let d: u64 = (u - 48) as u64;
        let wide: u128 = (acc as u128) * 10 + (d as u128);
        proof {
            assert(t@.subrange(1, (i + 1) as int).drop_last() =~= t@.subrange(1, i as int));
            assert(digits_value(t@.subrange(1, (i + 1) as int)) == acc * 10 + d);
        }
        if wide > cap as u128 {
            proof {
                if offset_shape(s) {
                    assert forall|j: int| 0 <= j < digits.len() implies is_digit(digits[j]) by {
                        assert(digits[j] == s[j + 1]);
                    }
                    assert(digits.subrange(0, i as int) =~= t@.subrange(1, (i + 1) as int));
                    lemma_digits_prefix(digits, i as int);
                    assert(digits_value(digits) > cap);
                    assert(s.subrange(1, s.len() as int) =~= digits);
                    assert(spec_offset(s) is None);
                }
            }
            return None;
        }
        acc = wide as u64;
        i += 1;
    }
    proof {
        assert(offset_shape(s));
        assert(digits == t@.subrange(1, i as int));
        lemma_digits_nonneg(digits);
    }
    if neg {
        Some((-(acc as i128)) as i64)
    } else {
        Some(acc as i64)
    }
}

/// The register operand of a one-operand instruction.
fn reg_operand(toks: &Vec<Vec<char>>) -> (r: Result<RegisterId, DecodeReason>)
    ensures
        r == spec_reg_operand(token_views(toks@)),
{
    if toks.len() != 2 {
        Err(DecodeReason::WrongOperandCount)
    } else {
        match parse_register(&toks[1]) {
            Some(rid) => Ok(rid),
            None => Err(DecodeReason::UnknownRegister),
        }
    }
}

/// The offset operand of an unconditional jump.
fn jump_operand(toks: &Vec<Vec<char>>) -> (r: Result<i64, DecodeReason>)
    ensures
        r == spec_jump_operand(token_views(toks@)),
{
    if toks.len() != 2 {
        Err(DecodeReason::WrongOperandCount)
    } else {
        match parse_offset(&toks[1]) {
            Some(v) => Ok(v),
            None => Err(DecodeReason::MalformedOffset),
        }
    }
}

/// The register and offset operands of a conditional jump.
fn cond_operands(toks: &Vec<Vec<char>>) -> (r: Result<(RegisterId, i64), DecodeReason>)
    ensures
        r == spec_cond_operands(token_views(toks@)),
{
    if toks.len() != 3 {
        Err(DecodeReason::WrongOperandCount)
    } else {
        match parse_register(&toks[1]) {
            Some(rid) => match parse_offset(&toks[2]) {
                Some(v) => Ok((rid, v)),
                None => Err(DecodeReason::MalformedOffset),
            },
            None => Err(DecodeReason::UnknownRegister),
        }
    }
}

/// Decodes one raw line into an instruction, or reports why it is rejected.
/// The decoder is pure: it reads the line alone and touches no machine state.
pub fn decode(line: &str) -> (r: Result<Instruction, DecodeError>)
    ensures
        ({
            match r {
                Ok(instr) => spec_decode(line@) == Ok::<Instruction, DecodeReason>(instr),
                Err(e) => spec_decode(line@) == Err::<Instruction, DecodeReason>(e.reason)
                    && e.line@ == line@,
            }
        }),
{
    let toks = tokenize(line);
    let op = &toks[0];
    let outcome: Result<Instruction, DecodeReason> = if opcode_is(op, 'h', 'l', 'f') {
        match reg_operand(&toks) {
            Ok(rid) => Ok(Instruction::Half(rid)),
            Err(reason) => Err(reason),
        }
    } else if opcode_is(op, 't', 'p', 'l') {
        match reg_operand(&toks) {
            Ok(rid) => Ok(Instruction::Triple(rid)),
            Err(reason) => Err(reason),
        }
    } else if opcode_is(op, 'i', 'n', 'c') {
        match reg_operand(&toks) {
            Ok(rid) => Ok(Instruction::Increment(rid)),
            Err(reason) => Err(reason),
        }
    } else if opcode_is(op, 'j', 'm', 'p') {
        match jump_operand(&toks) {
            Ok(v) => Ok(Instruction::Jump(v)),
            Err(reason) => Err(reason),
        }
    } else if opcode_is(op, 'j', 'i', 'e') {
        match cond_operands(&toks) {
            Ok((rid, v)) => Ok(Instruction::JumpIfEven(rid, v)),
            Err(reason) => Err(reason),
        }
    } else if opcode_is(op, 'j', 'i', 'o') {
        match cond_operands(&toks) {
            Ok((rid, v)) => Ok(Instruction::JumpIfOne(rid, v)),
            Err(reason) => Err(reason),
        }
    } else {
        Err(DecodeReason::UnknownOpcode)
    };
    match outcome {
        Ok(instr) => Ok(instr),
        Err(reason) => Err(DecodeError { line: line.to_owned(), reason }),
    }
}

} // verus!
