//! An imperative token stream over lisp-like source text, without a
//! separate lexing pass: parentheses, words and numbers, read one token at
//! a time.

use vstd::prelude::*;

verus! {

use vstd::string::StrSliceExecFns;

#[derive(Debug, Clone, PartialEq, Eq)]
pub enum Token {
    LParen,
    RParen,
    /// An alphanumerical word.
    Word(String),
    /// Currently only integers are supported.
    Number(String),
    Newline,
}

/// Walks the source text one character at a time.
#[derive(Debug)]
pub struct TokenStream {
    /// Position in the source, in characters.
    pos: usize,
    source: String,
}

impl TokenStream {
    /// The source text.
    pub closed spec fn src(&self) -> Seq<char> {
        self.source@
    }

    /// How far the stream has read, in characters.
    pub closed spec fn at(&self) -> nat {
        self.pos as nat
    }

    pub closed spec fn wf(&self) -> bool {
        self.pos <= self.source@.len()
    }

    pub fn new(code: &str) -> (r: TokenStream)
        ensures
            r.wf(),
            r.src() == code@,
            r.at() == 0,
    {
        TokenStream { pos: 0, source: code.to_owned() }
    }

    /// The next lexed token, or `None` at the end of the input. Where the
    /// word runs into a non-whitespace terminator, or an unexpected
    /// character appears, the stream ends: such input is malformed.
    pub fn next_token(&mut self) -> (t: Option<Token>)
        requires
            old(self).wf(),
        ensures
            final(self).wf(),
            final(self).src() == old(self).src(),
            t is Some ==> final(self).at() > old(self).at(),
    {
        let len = self.source.as_str().unicode_len();
        // Skip whitespace.
        loop
            invariant
                self.pos <= len,
                len == self.source@.len(),
                self.source@ == old(self).src(),
                old(self).at() <= self.pos,
            ensures
                self.pos <= len,
                len == self.source@.len(),
                self.source@ == old(self).src(),
                old(self).at() <= self.pos,
            decreases len - self.pos,
        {
            if self.pos >= len {
                break ;
            }
            let c = self.source.as_str().get_char(self.pos);
            if !(c == ' ' || c == '\t' || c == '\n' || c == '\x0c' || c == '\r') {
                break ;
            }
            self.pos = self.pos + 1;
        }
        if self.pos >= len {
            return None;
        }
        let c = self.source.as_str().get_char(self.pos);
        if c == '(' {
            self.pos = self.pos + 1;
            Some(Token::LParen)
        } else if c == ')' {
            self.pos = self.pos + 1;
            Some(Token::RParen)
        } else if c == '\n' {
            self.pos = self.pos + 1;
            Some(Token::Newline)
        } else if '0' <= c && c <= '9' {
            match self.read_run(len, true) {
                Some(text) => Some(Token::Number(text)),
                None => None,
            }
        } else if ('a' <= c && c <= 'z') || ('A' <= c && c <= 'Z') {
            match self.read_run(len, false) {
                Some(text) => Some(Token::Word(text)),
                None => None,
            }
        } else {
            None
        }
    }

    /// Reads a run of digits (or of alphanumeric characters), consuming the
    /// terminating character, which must be whitespace or the end of the
    /// input.
    fn read_run(&mut self, len: usize, digits_only: bool) -> (t: Option<String>)
        requires
            old(self).wf(),
            len == old(self).src().len(),
            old(self).at() < len,
        ensures
            final(self).wf(),
            final(self).src() == old(self).src(),
            final(self).at() > old(self).at(),
    {
        let start = self.pos;
        self.pos = self.pos + 1;
        loop
            invariant
                start < self.pos <= len,
                len == self.source@.len(),
                self.source@ == old(self).src(),
                start == old(self).at(),
            ensures
                start < self.pos <= len,
                len == self.source@.len(),
                self.source@ == old(self).src(),
                start == old(self).at(),
            decreases len - self.pos,
        {
            if self.pos >= len {
                // End of input: the run ends without a terminator.
                let text = self.source.as_str().substring_char(start, self.pos).to_owned();
                return Some(text);
            }
            let c = self.source.as_str().get_char(self.pos);
            let in_run = if digits_only {
                '0' <= c && c <= '9'
            } else {
                ('a' <= c && c <= 'z') || ('A' <= c && c <= 'Z') || ('0' <= c && c <= '9')
            };
            if !in_run {
                let text = self.source.as_str().substring_char(start, self.pos).to_owned();
                // Consume the terminator, which must be whitespace for the
                // token to be well formed.
                let ws = c == ' ' || c == '\t' || c == '\n' || c == '\x0c' || c == '\r';
                self.pos = self.pos + 1;
                if ws {
                    return Some(text);
                } else {
                    return None;
                }
            }
            self.pos = self.pos + 1;
        }
    }
}

} // verus!
