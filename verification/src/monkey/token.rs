//! Tokens of the Monkey-style language.

use vstd::prelude::*;

use crate::monkey::parser::Precedence;
use crate::text::str_eq;

verus! {

/// A lexed token. Identifier tokens borrow their text from the input they
/// were lexed out of.
#[derive(Debug, PartialEq, Eq, Clone, Copy)]
pub enum Token<'s> {
    Illegal,
    // Identifiers + literals
    Ident(&'s str),
    Int(i64),
    // Operators
    Assign,
    Plus,
    Minus,
    Bang,
    Asterisk,
    Slash,
    LT,
    GT,
    EQ,
    NotEQ,
    // Delimiters
    Comma,
    Semicolon,
    LParen,
    RParen,
    LBrace,
    RBrace,
    // Keywords
    Function,
    Let,
    True,
    False,
    If,
    Else,
    Return,
}

/// Whether a word is one of the language's keywords.
pub open spec fn is_keyword_text(w: Seq<char>) -> bool {
    ||| w == "fn"@
    ||| w == "let"@
    ||| w == "true"@
    ||| w == "false"@
    ||| w == "if"@
    ||| w == "else"@
    ||| w == "return"@
}

/// The precedence that binds to each token: comparison, sum and product
/// operators each get their level, everything else parses at the lowest.
pub open spec fn spec_precedence(t: Token<'_>) -> Precedence {
    match t {
        Token::EQ => Precedence::Equals,
        Token::NotEQ => Precedence::Equals,
        Token::LT => Precedence::LessOrGreaterThan,
        Token::GT => Precedence::LessOrGreaterThan,
        Token::Plus => Precedence::Sum,
        Token::Minus => Precedence::Sum,
        Token::Slash => Precedence::Product,
        Token::Asterisk => Precedence::Product,
        _ => Precedence::Lowest,
    }
}

impl<'s> Token<'s> {
    /// Looks up whether a valid identifier string is a keyword, returning
    /// the keyword token, and otherwise an identifier token holding the
    /// string.
    pub fn lookup_ident(s: &'s str) -> (t: Token<'s>)
        ensures
            s@ == "fn"@ ==> t == Token::<'s>::Function,
            s@ == "let"@ ==> t == Token::<'s>::Let,
            s@ == "true"@ ==> t == Token::<'s>::True,
            s@ == "false"@ ==> t == Token::<'s>::False,
            s@ == "if"@ ==> t == Token::<'s>::If,
            s@ == "else"@ ==> t == Token::<'s>::Else,
            s@ == "return"@ ==> t == Token::<'s>::Return,
            !is_keyword_text(s@) ==> t == Token::Ident(s),
    {
        proof {
            reveal_strlit("fn");
            reveal_strlit("let");
            reveal_strlit("true");
            reveal_strlit("false");
            reveal_strlit("if");
            reveal_strlit("else");
            reveal_strlit("return");
            assert("fn"@ =~= seq!['f', 'n']);
            assert("let"@ =~= seq!['l', 'e', 't']);
            assert("true"@ =~= seq!['t', 'r', 'u', 'e']);
            assert("false"@ =~= seq!['f', 'a', 'l', 's', 'e']);
            assert("if"@ =~= seq!['i', 'f']);
            assert("else"@ =~= seq!['e', 'l', 's', 'e']);
            assert("return"@ =~= seq!['r', 'e', 't', 'u', 'r', 'n']);
        }
        if str_eq(s, "fn") {
            Token::Function
        } else if str_eq(s, "let") {
            Token::Let
        } else if str_eq(s, "true") {
            Token::True
        } else if str_eq(s, "false") {
            Token::False
        } else if str_eq(s, "if") {
            Token::If
        } else if str_eq(s, "else") {
            Token::Else
        } else if str_eq(s, "return") {
            Token::Return
        } else {
            Token::Ident(s)
        }
    }

    /// A token's precedence. Defaults to the lowest precedence for any token
    /// without an operator level of its own.
    pub fn get_precedence(&self) -> (p: Precedence)
        ensures
            p == spec_precedence(*self),
    {
        match self {
            Token::EQ => Precedence::Equals,
            Token::NotEQ => Precedence::Equals,
            Token::LT => Precedence::LessOrGreaterThan,
            Token::GT => Precedence::LessOrGreaterThan,
            Token::Plus => Precedence::Sum,
            Token::Minus => Precedence::Sum,
            Token::Slash => Precedence::Product,
            Token::Asterisk => Precedence::Product,
            _ => Precedence::Lowest,
        }
    }
}

} // verus!
