//! A byte stack machine whose `add` treats the top groups of bytes as
//! big-endian numbers, and a line interpreter for driving it from a small
//! command language.

use vstd::prelude::*;

use crate::text::str_eq;

verus! {

use vstd::arithmetic::div_mod::lemma_mod_multiples_vanish;
use vstd::arithmetic::div_mod::lemma_small_mod;
use vstd::string::StrSliceExecFns;
use vstd::string::StringSliceAdditionalSpecFns;
use vstd::string::is_ascii;

/// 256 to the `n`-th power.
pub open spec fn pow256(n: nat) -> int
    decreases n,
{
    if n == 0 {
        1
    } else {
        256 * pow256((n - 1) as nat)
    }
}

pub proof fn lemma_pow256_pos(n: nat)
    ensures
        pow256(n) >= 1,
    decreases n,
{
    if n > 0 {
        lemma_pow256_pos((n - 1) as nat);
    }
}

/// The value of a byte sequence read as a big-endian number.
pub open spec fn be_val(s: Seq<u8>) -> int
    decreases s.len(),
{
    if s.len() == 0 {
        0
    } else {
        be_val(s.drop_last()) * 256 + s.last()
    }
}

/// `n` bytes encode a value below 256 to the `n`-th.
pub proof fn lemma_be_val_bound(s: Seq<u8>)
    ensures
        0 <= be_val(s) < pow256(s.len()),
    decreases s.len(),
{
    if s.len() > 0 {
        lemma_be_val_bound(s.drop_last());
        lemma_pow256_pos((s.len() - 1) as nat);
        let v = be_val(s.drop_last());
        let p = pow256((s.len() - 1) as nat);
        assert(v * 256 + s.last() < 256 * p) by (nonlinear_arith)
            requires
                0 <= v < p,
                0 <= s.last() <= 255,
        ;
    }
}

/// Prepending a most significant byte adds its value at the right power.
pub proof fn lemma_be_val_prepend(x: u8, t: Seq<u8>)
    ensures
        be_val(seq![x] + t) == x * pow256(t.len()) + be_val(t),
    decreases t.len(),
{
    if t.len() == 0 {
        assert(seq![x] + t =~= seq![x]);
        let s1 = seq![x];
        assert(s1.last() == x);
        assert(s1.drop_last() =~= Seq::<u8>::empty());
        assert(be_val(s1.drop_last()) == 0);
        assert(be_val(s1) == x);
    } else {
        lemma_be_val_prepend(x, t.drop_last());
        assert((seq![x] + t).drop_last() =~= seq![x] + t.drop_last());
        assert((seq![x] + t).last() == t.last());
        let n = t.len();
        let xv = x as int;
        let vd = be_val(t.drop_last());
        assert((xv * pow256((n - 1) as nat) + vd) * 256 == xv * (256 * pow256((n - 1) as nat)) + vd
            * 256) by (nonlinear_arith);
    }
}

/// The stack machine: a stack of bytes and a default operand width.
#[derive(Debug)]
pub struct StackMachine {
    pub stack: Vec<u8>,
    /// The number of bytes an operation acts on as a default.
    op_bytes: u8,
}

impl View for StackMachine {
    type V = Seq<u8>;

    closed spec fn view(&self) -> Seq<u8> {
        self.stack@
    }
}

impl StackMachine {
    /// The default operand width, in bytes.
    pub closed spec fn spec_op_bytes(&self) -> u8 {
        self.op_bytes
    }

    pub fn new() -> (sm: StackMachine)
        ensures
            sm@.len() == 0,
            sm.spec_op_bytes() == 1,
    {
        StackMachine { stack: Vec::new(), op_bytes: 1 }
    }

    /// Base pointer: where the stack begins, which is always zero here.
    pub fn bp(&self) -> (r: usize)
        ensures
            r == 0,
    {
        0
    }

    /// Stack pointer: where the next element would go; the top element is
    /// at `sp - 1`.
    pub fn sp(&self) -> (r: usize)
        ensures
            r == self@.len(),
    {
        self.stack.len()
    }

    /// The default operand width.
    pub fn op_bytes(&self) -> (r: u8)
        ensures
            r == self.spec_op_bytes(),
    {
        self.op_bytes
    }

    pub fn push(&mut self, val: u8)
        ensures
            final(self)@ == old(self)@.push(val),
            final(self).spec_op_bytes() == old(self).spec_op_bytes(),
    {
        self.stack.push(val);
    }

    pub fn pop(&mut self) -> (r: Option<u8>)
        ensures
            old(self)@.len() == 0 ==> r is None && final(self)@ == old(self)@,
            old(self)@.len() > 0 ==> r == Some(old(self)@.last()) && final(self)@ == old(
                self,
            )@.drop_last(),
            final(self).spec_op_bytes() == old(self).spec_op_bytes(),
    {
        self.stack.pop()
    }

    pub fn clear(&mut self)
        ensures
            final(self)@.len() == 0,
            final(self).spec_op_bytes() == old(self).spec_op_bytes(),
    {
        self.stack.clear();
    }

    pub fn extend_from_slice(&mut self, slice: &[u8])
        ensures
            final(self)@ == old(self)@ + slice@,
            final(self).spec_op_bytes() == old(self).spec_op_bytes(),
    {
        self.stack.extend_from_slice(slice);
    }

    /// Duplicates the top byte, if there is one.
    pub fn dup(&mut self)
        ensures
            old(self)@.len() == 0 ==> final(self)@ == old(self)@,
            old(self)@.len() > 0 ==> final(self)@ == old(self)@.push(old(self)@.last()),
            final(self).spec_op_bytes() == old(self).spec_op_bytes(),
    {
        if self.stack.len() > 0 {
            let x = self.stack[self.stack.len() - 1];
            self.stack.push(x);
        }
    }

    /// Pops the top `bytes` bytes, most significant first.
    fn pop_n(&mut self, bytes: u8) -> (r: Vec<u8>)
        requires
            bytes as int <= old(self)@.len(),
        ensures
            r@ == old(self)@.skip(old(self)@.len() - bytes),
            final(self)@ == old(self)@.take(old(self)@.len() - bytes),
            r@.len() == bytes,
            final(self).spec_op_bytes() == old(self).spec_op_bytes(),
    {
        let at = self.stack.len() - bytes as usize;
        self.stack.split_off(at)
    }

    /// Pops two big-endian numbers of `bytes` bytes each and pushes their
    /// sum, also `bytes` wide, discarding any final carry: addition modulo
    /// 256 to the `bytes`-th.
    pub fn add(&mut self, bytes: u8)
        requires
            2 * (bytes as int) <= old(self)@.len(),
        ensures
            final(self)@.len() == old(self)@.len() - bytes,
            final(self)@.take(old(self)@.len() - 2 * bytes) == old(self)@.take(
                old(self)@.len() - 2 * bytes,
            ),
            be_val(final(self)@.skip(old(self)@.len() - 2 * bytes)) == (be_val(
                old(self)@.skip(old(self)@.len() - bytes),
            ) + be_val(old(self)@.subrange(old(self)@.len() - 2 * bytes, old(self)@.len() - bytes)))
                % pow256(bytes as nat),
            final(self).spec_op_bytes() == old(self).spec_op_bytes(),
    {
        let b = bytes as usize;
        let first = self.pop_n(bytes);
        let second = self.pop_n(bytes);
        proof {
            assert(second@ =~= old(self)@.subrange(
                old(self)@.len() - 2 * bytes,
                old(self)@.len() - bytes,
            ));
        }
        let mut out: Vec<u8> = vec![0u8; b];
        let mut carry: u16 = 0;
        let mut k: usize = 0;
        while k < b
            invariant
                k <= b,
                b == bytes as int,
                first@.len() == b,
                second@.len() == b,
                out@.len() == b,
                carry <= 1,
                be_val(first@.skip(b - k)) + be_val(second@.skip(b - k)) == carry * pow256(
                    k as nat,
                ) + be_val(out@.skip(b - k)),
            decreases b - k,
        {
            let idx = b - 1 - k;
            let sum: u16 = first[idx] as u16 + second[idx] as u16 + carry;
            let digit: u8 = (sum % 256) as u8;
            let new_carry: u16 = sum / 256;
            let ghost old_out = out@;
            out[idx] = digit;
            proof {
                let i = idx as int;
                let p = pow256(k as nat);
                lemma_pow256_pos(k as nat);
                assert(first@.skip(i) =~= seq![first@[i]] + first@.skip(i + 1));
                assert(second@.skip(i) =~= seq![second@[i]] + second@.skip(i + 1));
                assert(out@.skip(i) =~= seq![digit] + out@.skip(i + 1));
                assert(out@.skip(i + 1) =~= old_out.skip(i + 1));
                lemma_be_val_prepend(first@[i], first@.skip(i + 1));
                lemma_be_val_prepend(second@[i], second@.skip(i + 1));
                lemma_be_val_prepend(digit, out@.skip(i + 1));
                let tail = be_val(old_out.skip(i + 1));
                let f = first@[i] as int;
                let s = second@[i] as int;
                assert((f * p + be_val(first@.skip(i + 1))) + (s * p + be_val(
                    second@.skip(i + 1),
                )) == (new_carry as int) * (256 * p) + ((digit as int) * p + tail))
                    by (nonlinear_arith)
                    requires
                        be_val(first@.skip(i + 1)) + be_val(second@.skip(i + 1)) == (carry as int)
                            * p + tail,
                        f + s + carry == digit + 256 * new_carry,
                ;
            }
            carry = new_carry;
            k = k + 1;
        }
        proof {
            assert(first@.skip(0) =~= first@);
            assert(second@.skip(0) =~= second@);
            assert(out@.skip(0) =~= out@);
            lemma_be_val_bound(out@);
            lemma_mod_multiples_vanish(carry as int, be_val(out@), pow256(bytes as nat));
            lemma_small_mod(be_val(out@) as nat, pow256(bytes as nat) as nat);
        }
        let ghost result = out@;
        self.stack.append(&mut out);
        proof {
            assert(self@.take(old(self)@.len() - 2 * bytes) =~= old(self)@.take(
                old(self)@.len() - 2 * bytes,
            ));
            assert(self@.skip(old(self)@.len() - 2 * bytes) =~= result);
        }
    }
}

/// How the stack is displayed after each command.
#[derive(Debug, PartialEq, Eq, Clone, Copy, Structural)]
pub enum StackFormat {
    Decimal,
    Binary,
    LowerHex,
    UpperHex,
}

/// The format a word of input names; anything unrecognized falls back to
/// decimal.
fn format_of(word: &str) -> StackFormat {
    if str_eq(word, "0b") || str_eq(word, "binary") {
        StackFormat::Binary
    } else if str_eq(word, "0x") || str_eq(word, "lowerhex") {
        StackFormat::LowerHex
    } else if str_eq(word, "0X") || str_eq(word, "upperhex") {
        StackFormat::UpperHex
    } else {
        StackFormat::Decimal
    }
}

/// What a line of input did, for the caller to display: the values the
/// pointer commands report, what `pop` removed, or that a command needed
/// more stack than the machine holds, which the design treats as a
/// fatal error.
#[derive(Debug, PartialEq, Eq)]
pub enum LineOutcome {
    Nothing,
    Bp(usize),
    Sp(usize),
    Popped(Option<u8>),
    Stuck,
}

/// Splits ASCII text into whitespace-separated words.
fn split_words(s: &str) -> (words: Vec<&str>)
    requires
        is_ascii(s),
        s@.len() <= usize::MAX,
    ensures
        forall|i: int|
            0 <= i < words@.len() ==> (#[trigger] words@[i]).is_ascii() && words@[i]@.len()
                <= s@.len(),
{
    proof {
        broadcast use vstd::string::is_ascii_spec_bytes;

        assert(s.spec_bytes().len() == s@.len());
    }
    let len = s.len();
    let mut words: Vec<&str> = Vec::new();
    let mut i: usize = 0;
    while i < len
        invariant
            is_ascii(s),
            len == s@.len(),
            i <= len,
            forall|k: int|
                0 <= k < words@.len() ==> (#[trigger] words@[k]).is_ascii() && words@[k]@.len()
                    <= s@.len(),
        decreases len - i,
    {
        let c = s.get_ascii(i);
        if c == 32 || c == 9 || c == 10 || c == 12 || c == 13 {
            i = i + 1;
        } else {
            let start = i;
            i = i + 1;
            loop
                invariant
                    is_ascii(s),
                    len == s@.len(),
                    start < i <= len,
                ensures
                    start < i <= len,
                decreases len - i,
            {
                if i >= len {
                    break ;
                }
                let c2 = s.get_ascii(i);
                if c2 == 32 || c2 == 9 || c2 == 10 || c2 == 12 || c2 == 13 {
                    break ;
                }
                i = i + 1;
            }
            words.push(s.substring_ascii(start, i));
        }
    }
    words
}

/// Parses a decimal byte as `u8::from_str` would: an optional leading
/// plus, then digits, value at most 255.
fn parse_u8_dec(word: &str) -> (r: Option<u8>)
    requires
        is_ascii(word),
        word@.len() <= usize::MAX,
{
    proof {
        broadcast use vstd::string::is_ascii_spec_bytes;

        assert(word.spec_bytes().len() == word@.len());
    }
    let len = word.len();
    let mut i: usize = 0;
    if i < len && word.get_ascii(i) == 43 {
        i = i + 1;
    }
    if i >= len {
        return None;
    }
    let mut val: u32 = 0;
    while i < len
        invariant
            is_ascii(word),
            len == word@.len(),
            i <= len,
            val <= 255,
        decreases len - i,
    {
        let c = word.get_ascii(i);
        if c < 48 || c > 57 {
            return None;
        }
        val = val * 10 + (c - 48) as u32;
        if val > 255 {
            return None;
        }
        i = i + 1;
    }
    Some(val as u8)
}

/// Parses a hexadecimal byte as `u8::from_str_radix` with radix 16 would.
fn parse_u8_hex(word: &str) -> (r: Option<u8>)
    requires
        is_ascii(word),
        word@.len() <= usize::MAX,
{
    proof {
        broadcast use vstd::string::is_ascii_spec_bytes;

        assert(word.spec_bytes().len() == word@.len());
    }
    let len = word.len();
    let mut i: usize = 0;
    if i < len && word.get_ascii(i) == 43 {
        i = i + 1;
    }
    if i >= len {
        return None;
    }
    let mut val: u32 = 0;
    while i < len
        invariant
            is_ascii(word),
            len == word@.len(),
            i <= len,
            val <= 255,
        decreases len - i,
    {
        let c = word.get_ascii(i);
        let d: u32 = if 48 <= c && c <= 57 {
            (c - 48) as u32
        } else if 97 <= c && c <= 102 {
            (c - 87) as u32
        } else if 65 <= c && c <= 70 {
            (c - 55) as u32
        } else {
            return None;
        };
        val = val * 16 + d;
        if val > 255 {
            return None;
        }
        i = i + 1;
    }
    Some(val as u8)
}

/// Interprets a program written in the stack machine's command language.
/// The machine it drives is handed to `interpret`, and what a line would
/// have printed is handed back as a `LineOutcome`.
#[derive(Debug)]
pub struct LangInterpreter {
    input: String,
    multiline: bool,
    format: StackFormat,
}

impl LangInterpreter {
    pub closed spec fn wf(&self) -> bool {
        vstd::string::string_is_ascii(&self.input) && self.input@.len() <= usize::MAX
    }

    pub closed spec fn spec_multiline(&self) -> bool {
        self.multiline
    }

    /// Prepares for interpreting a whole program.
    pub fn new(program: &str) -> (r: LangInterpreter)
        requires
            program.is_ascii(),
            program@.len() <= usize::MAX,
        ensures
            r.wf(),
            r.spec_multiline(),
    {
        LangInterpreter {
            input: program.to_owned(),
            multiline: true,
            format: StackFormat::Decimal,
        }
    }

    /// Prepares for interpreting a single line of input.
    pub fn from_line(line: &str) -> (r: LangInterpreter)
        requires
            line.is_ascii(),
            line@.len() <= usize::MAX,
        ensures
            r.wf(),
            !r.spec_multiline(),
    {
        let mut this = Self::new(line);
        this.multiline = false;
        this
    }

    /// The display format the input selects.
    pub closed spec fn spec_format(&self) -> StackFormat {
        self.format
    }

    /// The display format the input has selected so far.
    pub fn format(&self) -> (r: StackFormat)
        ensures
            r == self.spec_format(),
    {
        self.format
    }

    /// Interprets the input against the given machine. Interpreting a
    /// whole program at once is not supported, so only single lines are
    /// accepted.
    pub fn interpret(&mut self, sm: &mut StackMachine) -> (out: LineOutcome)
        requires
            old(self).wf(),
            !old(self).spec_multiline(),
        ensures
            final(self).wf(),
            out matches LineOutcome::Bp(v) ==> v == 0 && final(sm)@ == old(sm)@,
            out matches LineOutcome::Sp(v) ==> v == old(sm)@.len() && final(sm)@ == old(sm)@,
            out is Stuck ==> final(sm)@ == old(sm)@,
    {
        self.interpret_line(sm)
    }

    fn interpret_line(&mut self, sm: &mut StackMachine) -> (out: LineOutcome)
        requires
            old(self).wf(),
        ensures
            final(self).wf(),
            out matches LineOutcome::Bp(v) ==> v == 0 && final(sm)@ == old(sm)@,
            out matches LineOutcome::Sp(v) ==> v == old(sm)@.len() && final(sm)@ == old(sm)@,
            out is Stuck ==> final(sm)@ == old(sm)@,
    {
        let input = self.input.clone();
        let words = split_words(input.as_str());
        if words.len() == 0 {
            return LineOutcome::Nothing;
        }
        let first = words[0];
        if str_eq(first, "0x") || str_eq(first, "0X") || str_eq(first, "0b") {
            self.format = format_of(first);
            LineOutcome::Nothing
        } else if str_eq(first, "format") {
            if words.len() > 1 {
                self.format = format_of(words[1]);
            }
            LineOutcome::Nothing
        } else if str_eq(first, "bp") {
            LineOutcome::Bp(sm.bp())
        } else if str_eq(first, "sp") {
            LineOutcome::Sp(sm.sp())
        } else if str_eq(first, "pop") {
            LineOutcome::Popped(sm.pop())
        } else if str_eq(first, "add") {
            let bytes = if words.len() > 1 {
                match parse_u8_dec(words[1]) {
                    Some(n) => n,
                    None => sm.op_bytes(),
                }
            } else {
                sm.op_bytes()
            };
            if 2 * (bytes as usize) <= sm.sp() {
                sm.add(bytes);
                LineOutcome::Nothing
            } else {
                // A machine too short for the operation is a fatal error by
                // design; report it and leave the machine unchanged.
                LineOutcome::Stuck
            }
        } else if str_eq(first, "dup") {
            let times = if words.len() > 1 {
                match parse_u8_dec(words[1]) {
                    Some(n) => n,
                    None => 0,
                }
            } else {
                0
            };
            let mut n: u8 = 0;
            while n < times
                invariant
                    n <= times,
                decreases times - n,
            {
                sm.dup();
                n = n + 1;
            }
            LineOutcome::Nothing
        } else {
            proof {
                broadcast use vstd::string::is_ascii_spec_bytes;

                assert(first.spec_bytes().len() == first@.len());
            }
            if let Some(n) = parse_u8_dec(first) {
                sm.push(n);
            } else if first.len() >= 2 && first.get_ascii(0) == 48 && first.get_ascii(1) == 120 {
                let hex = first.substring_ascii(2, first.len());
                if let Some(x) = parse_u8_hex(hex) {
                    sm.push(x);
                }
            }
            LineOutcome::Nothing
        }
    }
}

} // verus!
