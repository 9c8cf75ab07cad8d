//! The lexer: turns source text into a stream of tokens, one call at a
//! time. Input is handled as ASCII bytes, read one byte at a time.

use vstd::prelude::*;

use crate::monkey::token::Token;
use crate::text::dec_val;
use crate::text::lemma_digit_run_short;
use crate::text::no_long_digit_run;
use crate::text::is_digit_char;
use crate::text::lemma_dec_val_bound;
use crate::text::lemma_pow10_18_fits;
use crate::text::lemma_pow10_mono;

verus! {

use vstd::string::StrSliceExecFns;
use vstd::string::is_ascii;
use vstd::string::is_ascii_spec_bytes;
use vstd::string::StringSliceAdditionalSpecFns;

/// A letter that may appear in an identifier: underscore, bang, or an ASCII
/// letter. Digits are deliberately not identifier letters.
pub open spec fn is_ident_char(c: char) -> bool {
    ||| c == '_'
    ||| c == '!'
    ||| ('a' <= c && c <= 'z')
    ||| ('A' <= c && c <= 'Z')
}

/// ASCII whitespace: space, tab, line feed, form feed, carriage return.
pub open spec fn is_ws_char(c: char) -> bool {
    c == ' ' || c == '\t' || c == '\n' || c == '\x0c' || c == '\r'
}

/// The inputs the lexer accepts: ASCII text, short enough for 32-bit
/// positions, with no oversized integer literal.
pub open spec fn lexable(s: &str) -> bool {
    &&& is_ascii(s)
    &&& s@.len() + 2 <= u32::MAX
    &&& no_long_digit_run(s@)
}

/// The lexer walks the input with a current position, a read-ahead
/// position, and the byte under examination (0 once the input is
/// exhausted).
#[derive(Debug)]
pub struct Lexer<'input> {
    input: &'input str,
    /// Current position in input (points to current char).
    position: u32,
    /// Current reading position in input (after current char).
    read_position: u32,
    /// Current char under examination, as an ASCII byte.
    ch: u8,
}

impl<'input> Lexer<'input> {
    /// The lexer's positions and read-ahead byte stay consistent with its
    /// input.
    pub closed spec fn wf(&self) -> bool {
        &&& lexable(self.input)
        &&& self.position <= self.input@.len()
        &&& self.read_position == self.position + 1
        &&& self.ch == (if self.position < self.input@.len() {
            self.input@[self.position as int] as u8
        } else {
            0
        })
    }

    /// The input text being lexed.
    pub closed spec fn src(&self) -> Seq<char> {
        self.input@
    }

    /// How far the lexer has read, in characters.
    pub closed spec fn pos(&self) -> nat {
        self.position as nat
    }

    /// The characters not yet consumed.
    pub closed spec fn remaining(&self) -> nat {
        (self.input@.len() - self.position) as nat
    }

    pub fn new(input: &'input str) -> (l: Lexer<'input>)
        requires
            lexable(input),
        ensures
            l.wf(),
    {
        proof {
            broadcast use is_ascii_spec_bytes;

            assert(input.spec_bytes().len() == input@.len());
        }
        let ch: u8 = if input.len() > 0 {
            input.get_ascii(0)
        } else {
            0
        };
        Lexer { input, position: 0, read_position: 1, ch }
    }

    /// The length of the input, in characters.
    pub fn source_len(&self) -> (n: usize)
        requires
            self.wf(),
        ensures
            n == self.src().len(),
            n + 2 <= u32::MAX,
    {
        proof {
            broadcast use is_ascii_spec_bytes;

            assert(self.input.spec_bytes().len() == self.input@.len());
        }
        self.input.len()
    }

    /// Advances to the next character; the byte under examination becomes 0
    /// at the end of the input.
    fn read_char(&mut self)
        requires
            old(self).wf(),
            old(self).position < old(self).input@.len(),
        ensures
            final(self).wf(),
            final(self).input == old(self).input,
            final(self).position == old(self).position + 1,
    {
        proof {
            broadcast use is_ascii_spec_bytes;

            assert(self.input.spec_bytes().len() == self.input@.len());
        }
        if self.read_position as usize >= self.input.len() {
            self.ch = 0;
        } else {
            self.ch = self.input.get_ascii(self.read_position as usize);
        }
        self.position = self.read_position;
        self.read_position = self.read_position + 1;
    }

    /// Looks at the next character without advancing.
    fn peek_char(&self) -> (c: Option<u8>)
        requires
            self.wf(),
        ensures
            c == (if self.position + 1 < self.input@.len() {
                Some(self.input@[self.position as int + 1] as u8)
            } else {
                None::<u8>
            }),
    {
        proof {
            broadcast use is_ascii_spec_bytes;

            assert(self.input.spec_bytes().len() == self.input@.len());
        }
        if self.read_position as usize >= self.input.len() {
            None
        } else {
            Some(self.input.get_ascii(self.read_position as usize))
        }
    }

    /// Steps over whitespace, stopping at the first non-whitespace
    /// character (or the end of the input).
    fn skip_whitespace(&mut self)
        requires
            old(self).wf(),
        ensures
            final(self).wf(),
            final(self).input == old(self).input,
            final(self).position >= old(self).position,
    {
        while self.ch == 32 || self.ch == 9 || self.ch == 10 || self.ch == 12 || self.ch == 13
            invariant
                self.wf(),
                self.input == old(self).input,
                self.position >= old(self).position,
            decreases self.remaining(),
        {
            self.read_char();
        }
    }

    /// From the current position, reads as many characters as possible that
    /// are valid identifier letters, returning them as a slice of the
    /// input.
    fn read_identifier(&mut self) -> (r: &'input str)
        requires
            old(self).wf(),
        ensures
            final(self).wf(),
            final(self).input == old(self).input,
            final(self).position >= old(self).position,
            r@ == old(self).input@.subrange(
                old(self).position as int,
                final(self).position as int,
            ),
            old(self).position < old(self).input@.len() && is_ident_char(
                old(self).input@[old(self).position as int],
            ) ==> final(self).position > old(self).position,
    {
        let position = self.position;
        while self.ch == 95 || self.ch == 33 || (65 <= self.ch && self.ch <= 90) || (97 <= self.ch
            && self.ch <= 122)
            invariant
                self.wf(),
                self.input == old(self).input,
                position <= self.position,
                self.position == position ==> self.ch == old(self).ch,
            decreases self.remaining(),
        {
            self.read_char();
        }
        self.input.substring_ascii(position as usize, self.position as usize)
    }

    /// From the current position, reads as many characters as possible that
    /// are digits. All of them are digits, and the run is maximal on the
    /// right.
    fn read_number(&mut self) -> (r: &'input str)
        requires
            old(self).wf(),
        ensures
            final(self).wf(),
            final(self).input == old(self).input,
            final(self).position >= old(self).position,
            r@ == old(self).input@.subrange(
                old(self).position as int,
                final(self).position as int,
            ),
            forall|k: int|
                old(self).position <= k < final(self).position ==> is_digit_char(
                    #[trigger] old(self).input@[k],
                ),
            final(self).position == old(self).input@.len() || !is_digit_char(
                old(self).input@[final(self).position as int],
            ),
            old(self).position < old(self).input@.len() && is_digit_char(
                old(self).input@[old(self).position as int],
            ) ==> final(self).position > old(self).position,
    {
        let position = self.position;
        while 48 <= self.ch && self.ch <= 57
            invariant
                self.wf(),
                self.input == old(self).input,
                position <= self.position,
                self.position == position ==> self.ch == old(self).ch,
                forall|k: int|
                    position <= k < self.position ==> is_digit_char(#[trigger] self.input@[k]),
            decreases self.remaining(),
        {
            self.read_char();
        }
        self.input.substring_ascii(position as usize, self.position as usize)
    }

    /// The next lexed token from the input, or `None` once the input is
    /// exhausted.
    pub fn next_token(&mut self) -> (t: Option<Token<'input>>)
        requires
            old(self).wf(),
        ensures
            final(self).wf(),
            final(self).src() == old(self).src(),
            old(self).pos() <= final(self).pos(),
            t is Some ==> old(self).pos() < final(self).pos(),
    {
        self.skip_whitespace();

        let ch = self.ch;
        let token: Token<'input> = if ch == 59 {
            Token::Semicolon
        } else if ch == 44 {
            Token::Comma
        } else if ch == 43 {
            Token::Plus
        } else if ch == 45 {
            Token::Minus
        } else if ch == 42 {
            Token::Asterisk
        } else if ch == 47 {
            Token::Slash
        } else if ch == 60 {
            Token::LT
        } else if ch == 62 {
            Token::GT
        } else if ch == 123 {
            Token::LBrace
        } else if ch == 125 {
            Token::RBrace
        } else if ch == 40 {
            Token::LParen
        } else if ch == 41 {
            Token::RParen
        } else if ch == 61 {
            if let Some(61) = self.peek_char() {
                self.read_char();
                Token::EQ
            } else {
                Token::Assign
            }
        } else if ch == 33 {
            if let Some(61) = self.peek_char() {
                self.read_char();
                Token::NotEQ
            } else {
                Token::Bang
            }
        } else if ch == 0 {
            return None;
        } else if ch == 95 || (65 <= ch && ch <= 90) || (97 <= ch && ch <= 122) {
            // Early exit: reading the identifier already leaves the lexer
            // where it should be.
            return Some(Token::lookup_ident(self.read_identifier()));
        } else if 48 <= ch && ch <= 57 {
            // Early exit, as for identifiers.
            let ghost start = self.position;
            let digits = self.read_number();
            proof {
                lemma_digit_run_short(self.input@, start as int, self.position as int);
            }
            return Some(Token::Int(parse_digits(digits)));
        } else {
            Token::Illegal
        };
        self.read_char();
        Some(token)
    }
}

/// Parses a run of at most eighteen decimal digits into its value.
fn parse_digits(s: &str) -> (v: i64)
    requires
        is_ascii(s),
        s@.len() <= 18,
        forall|k: int| 0 <= k < s@.len() ==> is_digit_char(#[trigger] s@[k]),
    ensures
        v == dec_val(s@, 0, s@.len() as int),
{
    proof {
        broadcast use is_ascii_spec_bytes;

        assert(s.spec_bytes().len() == s@.len());
    }
    let len = s.len();
    let mut val: i64 = 0;
    let mut i: usize = 0;
    while i < len
        invariant
            is_ascii(s),
            len == s@.len(),
            s@.len() <= 18,
            forall|k: int| 0 <= k < s@.len() ==> is_digit_char(#[trigger] s@[k]),
            i <= len,
            val == dec_val(s@, 0, i as int),
        decreases len - i,
    {
        let d = s.get_ascii(i);
        proof {
            lemma_dec_val_bound(s@, 0, i as int);
            lemma_pow10_mono(i as nat, 17);
            lemma_pow10_18_fits();
        }
        val = val * 10 + (d - 48) as i64;
        i = i + 1;
    }
    val
}

} // verus!
