//! A tokenizer for a small lisp: the source is first rewritten so that
//! every token is surrounded by whitespace, then split into words and
//! classified.

use vstd::prelude::*;

use crate::text::str_eq;

verus! {

use vstd::string::StrSliceExecFns;
use vstd::string::StringExecFns;

/// A lexed token. Words borrow their text from the tokenizer that holds
/// the rewritten source.
#[derive(Debug, PartialEq, Eq, Clone, Copy)]
pub enum Token<'a> {
    Word(&'a str),
    Int64(i64),
    LParen,
    RParen,
    // Keywords:
    Add,
    Print,
    Cons,
    Def,
    Defun,
}

impl Token<'_> {
    /// Whether the token is one of the language's keywords.
    pub fn is_keyword(&self) -> (r: bool)
        ensures
            r == (*self is Add || *self is Print || *self is Cons || *self is Def
                || *self is Defun),
    {
        matches!(self, Token::Add | Token::Print | Token::Cons | Token::Def | Token::Defun)
    }
}

/// `s` with every occurrence of the character `c` replaced by `rep`.
pub open spec fn replace_char_text(s: Seq<char>, c: char, rep: Seq<char>) -> Seq<char>
    decreases s.len(),
{
    if s.len() == 0 {
        s
    } else if s[0] == c {
        rep + replace_char_text(s.skip(1), c, rep)
    } else {
        seq![s[0]] + replace_char_text(s.skip(1), c, rep)
    }
}

/// `s` with every occurrence of the two-character sequence `c1 c2`
/// replaced by `rep`, scanning left to right without overlap.
pub open spec fn replace_pair_text(s: Seq<char>, c1: char, c2: char, rep: Seq<char>) -> Seq<char>
    decreases s.len(),
{
    if s.len() == 0 {
        s
    } else if s.len() >= 2 && s[0] == c1 && s[1] == c2 {
        rep + replace_pair_text(s.skip(2), c1, c2, rep)
    } else {
        seq![s[0]] + replace_pair_text(s.skip(1), c1, c2, rep)
    }
}

/// Replaces every occurrence of `c` in `s` by `rep`.
fn replace_char(s: &str, c: char, rep: &str) -> (r: String)
    ensures
        r@ == replace_char_text(s@, c, rep@),
{
    let len = s.unicode_len();
    let mut out = String::new();
    let mut i: usize = 0;
    proof {
        assert(s@.skip(0) =~= s@);
        assert(out@ + replace_char_text(s@, c, rep@) =~= replace_char_text(s@, c, rep@));
    }
    while i < len
        invariant
            i <= len,
            len == s@.len(),
            out@ + replace_char_text(s@.skip(i as int), c, rep@) == replace_char_text(
                s@,
                c,
                rep@,
            ),
        decreases len - i,
    {
        let ch = s.get_char(i);
        proof {
            assert(s@.skip(i as int)[0] == s@[i as int]);
            assert(s@.skip(i as int).skip(1) =~= s@.skip(i as int + 1));
        }
        if ch == c {
            out.append(rep);
        } else {
            let one = s.substring_char(i, i + 1);
            proof {
                assert(one@ =~= seq![s@[i as int]]);
            }
            out.append(one);
        }
        i = i + 1;
    }
    proof {
        assert(s@.skip(len as int) =~= Seq::<char>::empty());
        assert(out@ + Seq::<char>::empty() =~= out@);
    }
    out
}

/// Replaces every occurrence of the pair `c1 c2` in `s` by `rep`.
fn replace_pair(s: &str, c1: char, c2: char, rep: &str) -> (r: String)
    ensures
        r@ == replace_pair_text(s@, c1, c2, rep@),
{
    let len = s.unicode_len();
    let mut out = String::new();
    let mut i: usize = 0;
    proof {
        assert(s@.skip(0) =~= s@);
        assert(out@ + replace_pair_text(s@, c1, c2, rep@) =~= replace_pair_text(s@, c1, c2, rep@));
    }
    while i < len
        invariant
            i <= len,
            len == s@.len(),
            out@ + replace_pair_text(s@.skip(i as int), c1, c2, rep@) == replace_pair_text(
                s@,
                c1,
                c2,
                rep@,
            ),
        decreases len - i,
    {
        let ch = s.get_char(i);
        proof {
            assert(s@.skip(i as int)[0] == s@[i as int]);
            assert(s@.skip(i as int).skip(1) =~= s@.skip(i as int + 1));
        }
        if ch == c1 && i + 1 < len && s.get_char(i + 1) == c2 {
            proof {
                assert(s@.skip(i as int)[1] == s@[i as int + 1]);
                assert(s@.skip(i as int).skip(2) =~= s@.skip(i as int + 2));
            }
            out.append(rep);
            i = i + 2;
        } else {
            let one = s.substring_char(i, i + 1);
            proof {
                assert(one@ =~= seq![s@[i as int]]);
            }
            out.append(one);
            i = i + 1;
        }
    }
    proof {
        assert(s@.skip(len as int) =~= Seq::<char>::empty());
        assert(out@ + Seq::<char>::empty() =~= out@);
    }
    out
}

/// The rewriting the tokenizer applies before splitting: parentheses and
/// commas, comment openers and closers each get whitespace around them, so
/// that a plain whitespace split separates all tokens.
pub open spec fn surrounded_text(s: Seq<char>) -> Seq<char> {
    replace_pair_text(
        replace_pair_text(
            replace_char_text(
                replace_char_text(replace_char_text(s, '(', " ( "@), ')', " ) "@),
                ',',
                " , "@,
            ),
            '/',
            '/',
            " // "@,
        ),
        '\\',
        '\\',
        " \\\\ "@,
    )
}

/// Inserts whitespace around the tokens that are allowed to touch their
/// neighbours, so that splitting on whitespace yields every token.
pub fn ensure_each_token_has_whitespace_surrounding(source: &str) -> (r: String)
    ensures
        r@ == surrounded_text(source@),
{
    let a = replace_char(source, '(', " ( ");
    let b = replace_char(a.as_str(), ')', " ) ");
    let c = replace_char(b.as_str(), ',', " , ");
    let d = replace_pair(c.as_str(), '/', '/', " // ");
    replace_pair(d.as_str(), '\\', '\\', " \\\\ ")
}

/// An operator character, allowed in identifiers.
pub open spec fn is_op_char(c: char) -> bool {
    ||| c == '\'' || c == '+' || c == '-' || c == '/' || c == '*'
    ||| c == '!' || c == '@' || c == '#' || c == '$' || c == '%'
    ||| c == '&' || c == '<' || c == '>' || c == '?' || c == '='
    ||| c == ':' || c == ';' || c == '|' || c == '_'
}

/// An ASCII letter or digit.
pub open spec fn is_alnum_char(c: char) -> bool {
    ||| ('a' <= c && c <= 'z')
    ||| ('A' <= c && c <= 'Z')
    ||| ('0' <= c && c <= '9')
}

pub(crate) fn op_char(c: char) -> (r: bool)
    ensures
        r == is_op_char(c),
{
    c == '\'' || c == '+' || c == '-' || c == '/' || c == '*' || c == '!' || c == '@' || c == '#'
        || c == '$' || c == '%' || c == '&' || c == '<' || c == '>' || c == '?' || c == '=' || c
        == ':' || c == ';' || c == '|' || c == '_'
}

pub(crate) fn alnum_char(c: char) -> (r: bool)
    ensures
        r == is_alnum_char(c),
{
    ('a' <= c && c <= 'z') || ('A' <= c && c <= 'Z') || ('0' <= c && c <= '9')
}

/// A valid identifier: every character a letter, digit or operator
/// character, the first one included.
pub fn is_valid_identifier(first_char: char, word: &str) -> (r: bool)
    ensures
        r == ((is_alnum_char(first_char) || is_op_char(first_char)) && (forall|k: int|
            1 <= k < word@.len() ==> is_alnum_char(#[trigger] word@[k]) || is_op_char(word@[k]))),
{
    if !(alnum_char(first_char) || op_char(first_char)) {
        return false;
    }
    let len = word.unicode_len();
    let mut k: usize = 1;
    while k < len
        invariant
            1 <= k <= len || len < 1,
            len == word@.len(),
            forall|j: int| 1 <= j < k ==> is_alnum_char(#[trigger] word@[j]) || is_op_char(word@[j]),
        decreases len - k,
    {
        let c = word.get_char(k);
        if !(alnum_char(c) || op_char(c)) {
            return false;
        }
        k = k + 1;
    }
    true
}

/// Holds the rewritten source so that tokens can borrow from it.
#[derive(Debug)]
pub struct Tokenizer {
    source: String,
}

impl Tokenizer {
    /// The rewritten source the tokens are cut from.
    pub closed spec fn src(&self) -> Seq<char> {
        self.source@
    }

    pub fn new(input: &str) -> (t: Tokenizer)
        ensures
            t.src() == surrounded_text(input@),
    {
        Tokenizer { source: ensure_each_token_has_whitespace_surrounding(input) }
    }

    /// Splits the rewritten source into tokens. Returns `None` on any word
    /// the language has no token for, and on integer literals too large
    /// for a signed 64-bit value: malformed input, by design a fatal
    /// error.
    pub fn tokenize(&self) -> (r: Option<Vec<Token<'_>>>)
    {
        let s = self.source.as_str();
        let len = s.unicode_len();
        let mut tokens: Vec<Token<'_>> = Vec::new();
        let mut skipping_comment = false;
        let mut i: usize = 0;
        while i < len
            invariant
                i <= len,
                len == s@.len(),
            decreases len - i,
        {
            let c = s.get_char(i);
            if c == ' ' || c == '\t' || c == '\n' || c == '\x0c' || c == '\r' {
                i = i + 1;
                continue ;
            }
            let start = i;
            i = i + 1;
            loop
                invariant
                    start < i <= len,
                    len == s@.len(),
                ensures
                    start < i <= len,
                    len == s@.len(),
                decreases len - i,
            {
                if i >= len {
                    break ;
                }
                let c2 = s.get_char(i);
                if c2 == ' ' || c2 == '\t' || c2 == '\n' || c2 == '\x0c' || c2 == '\r' {
                    break ;
                }
                i = i + 1;
            }
            let word = s.substring_char(start, i);
            // Flag comments for skipping.
            if str_eq(word, "//") {
                skipping_comment = true;
            } else if str_eq(word, "\\\\") {
                skipping_comment = false;
                continue ;
            }
            // Skip over commas and comments.
            if str_eq(word, ",") || skipping_comment {
                continue ;
            }
            let first_char = word.get_char(0);
            if str_eq(word, "(") {
                tokens.push(Token::LParen);
            } else if str_eq(word, ")") {
                tokens.push(Token::RParen);
            } else if str_eq_lower(word, "print") {
                tokens.push(Token::Print);
            } else if str_eq_lower(word, "cons") {
                tokens.push(Token::Cons);
            } else if str_eq_lower(word, "add") {
                // A bare "+" is a valid identifier, not the Add keyword:
                // the parser's own tests expect `(+ ...)` to carry an
                // identifier node.
                tokens.push(Token::Add);
            } else if str_eq_lower(word, "def") {
                tokens.push(Token::Def);
            } else if str_eq_lower(word, "defun") {
                tokens.push(Token::Defun);
            } else if all_digits(word, 0) {
                // A positive number.
                match parse_decimal(word, false) {
                    Some(v) => tokens.push(Token::Int64(v)),
                    None => {
                        return None;
                    },
                }
            } else if (first_char == '-' || first_char == '+') && word.unicode_len() > 1
                && all_digits(word, 1) {
                // A positive or negative number with an explicit sign.
                match parse_decimal(word, true) {
                    Some(v) => tokens.push(Token::Int64(v)),
                    None => {
                        return None;
                    },
                }
            } else if is_valid_identifier(first_char, word) {
                tokens.push(Token::Word(word));
            } else {
                return None;
            }
        }
        Some(tokens)
    }
}

/// Whether the word, ignoring ASCII case, equals the (lowercase) keyword.
fn str_eq_lower(word: &str, keyword: &str) -> (r: bool)
{
    let wlen = word.unicode_len();
    let klen = keyword.unicode_len();
    if wlen != klen {
        return false;
    }
    let mut i: usize = 0;
    while i < wlen
        invariant
            i <= wlen,
            wlen == word@.len(),
            klen == keyword@.len(),
            wlen == klen,
        decreases wlen - i,
    {
        let mut c = word.get_char(i);
        if 'A' <= c && c <= 'Z' {
            c = ((c as u32) + 32) as u8 as char;
        }
        if c != keyword.get_char(i) {
            return false;
        }
        i = i + 1;
    }
    true
}

/// Whether every character from `from` on is an ASCII digit (and there is
/// at least one).
fn all_digits(word: &str, from: usize) -> (r: bool)
    requires
        from <= 1,
    ensures
        r ==> word@.len() > from,
{
    let len = word.unicode_len();
    if len <= from {
        return false;
    }
    let mut i: usize = from;
    while i < len
        invariant
            from <= i <= len,
            len == word@.len(),
        decreases len - i,
    {
        let c = word.get_char(i);
        if !('0' <= c && c <= '9') {
            return false;
        }
        i = i + 1;
    }
    true
}

/// Parses a decimal integer, with an optional leading sign where `signed`
/// is set. Returns `None` where the value does not fit a signed 64-bit
/// integer, which the design treats as a fatal error.
fn parse_decimal(word: &str, signed: bool) -> (r: Option<i64>)
    requires
        word@.len() >= 1,
        signed ==> word@.len() >= 2,
{
    let len = word.unicode_len();
    let mut i: usize = 0;
    let mut negative = false;
    if signed {
        let c = word.get_char(0);
        negative = c == '-';
        i = 1;
    }
    let mut magnitude: u64 = 0;
    while i < len
        invariant
            i <= len,
            len == word@.len(),
        decreases len - i,
    {
        let c = word.get_char(i);
        if !('0' <= c && c <= '9') {
            return None;
        }
        if magnitude > 1844674407370955160 {
            return None;
        }
        magnitude = magnitude * 10 + ((c as u32 - 48) as u64);
        i = i + 1;
    }
    if negative {
        if magnitude > 9223372036854775808 {
            None
        } else if magnitude == 9223372036854775808 {
            Some(i64::MIN)
        } else {
            Some(-(magnitude as i64))
        }
    } else {
        if magnitude > 9223372036854775807 {
            None
        } else {
            Some(magnitude as i64)
        }
    }
}

/// A node of the syntax tree: an identifier, an integer, a keyword, or a
/// nested expression.
#[derive(Debug, PartialEq, Eq)]
pub enum Node<'a> {
    Ident(&'a str),
    Int64(i64),
    Builtin(Token<'a>),
    Expr(Expression<'a>),
}

/// An expression is parentheses surrounding nodes; expressions are
/// themselves nodes, so they nest. They are kept as a distinct type
/// because only expressions are valid at the top level of a program.
#[derive(Debug, PartialEq, Eq)]
pub struct Expression<'a>(pub Vec<Node<'a>>);

impl<'a> Expression<'a> {
    pub fn new() -> (e: Expression<'a>)
        ensures
            e.0@.len() == 0,
    {
        Expression(Vec::new())
    }

    pub fn nodes(&self) -> (r: &Vec<Node<'a>>)
        ensures
            r == &self.0,
    {
        &self.0
    }

    fn push(&mut self, node: Node<'a>)
        ensures
            final(self).0@ == old(self).0@.push(node),
    {
        self.0.push(node);
    }
}

impl<'a> Node<'a> {
    /// Builds an expression node.
    pub fn expr(vec: Vec<Node<'a>>) -> (n: Node<'a>)
        ensures
            n == Node::Expr(Expression(vec)),
    {
        Node::Expr(Expression(vec))
    }

    /// The integer a literal node holds; asking any other node is a fatal
    /// error by design.
    pub fn get_i64(&self) -> (v: i64)
        requires
            *self is Int64,
        ensures
            *self == Node::<'a>::Int64(v),
    {
        match self {
            Node::Int64(val) => *val,
            _ => {
                proof {
                    assert(false);
                }
                0
            },
        }
    }

    /// The identifier a node holds; asking any other node is a fatal error
    /// by design.
    pub fn get_ident(&self) -> (v: &'a str)
        requires
            *self is Ident,
        ensures
            *self == Node::<'a>::Ident(v),
    {
        match self {
            Node::Ident(ident) => *ident,
            _ => {
                proof {
                    assert(false);
                }
                ""
            },
        }
    }
}

/// A parsed program: its top-level expressions in order.
#[derive(Debug, PartialEq, Eq)]
pub struct Program<'a>(pub Vec<Expression<'a>>);

impl<'a> Program<'a> {
    pub fn expressions(&self) -> (r: &Vec<Expression<'a>>)
        ensures
            r == &self.0,
    {
        &self.0
    }

    /// Wraps a single expression node as a program, for tests.
    pub fn from_node(node: Node<'a>) -> (p: Program<'a>)
        requires
            node is Expr,
        ensures
            node matches Node::Expr(e) ==> p.0@ == seq![e],
    {
        let mut expressions: Vec<Expression<'a>> = Vec::new();
        match node {
            Node::Expr(expression) => expressions.push(expression),
            _ => {
                proof {
                    assert(false);
                }
            },
        }
        Program(expressions)
    }

    /// Wraps expression nodes as a program; a non-expression node at the
    /// top level is a fatal error by design.
    pub fn from_nodes(nodes: Vec<Node<'a>>) -> (p: Program<'a>)
        requires
            forall|k: int| 0 <= k < nodes@.len() ==> (#[trigger] nodes@[k]) is Expr,
    {
        let mut nodes = nodes;
        let mut expressions: Vec<Expression<'a>> = Vec::new();
        while nodes.len() > 0
            invariant
                forall|k: int| 0 <= k < nodes@.len() ==> (#[trigger] nodes@[k]) is Expr,
            decreases nodes@.len(),
        {
            match nodes.remove(0) {
                Node::Expr(expression) => expressions.push(expression),
                _ => {
                    proof {
                        assert(false);
                    }
                },
            }
        }
        Program(expressions)
    }
}

/// Pushes inside of the expression at the top of the stack. Returns false
/// where the stack is empty, which the design treats as a fatal error.
fn push_inside<'a>(stack: &mut Vec<Expression<'a>>, node: Node<'a>) -> (ok: bool)
    ensures
        ok == (old(stack)@.len() > 0),
{
    match stack.pop() {
        Some(mut top) => {
            top.push(node);
            stack.push(top);
            true
        },
        None => false,
    }
}

/// The parser: holds the tokenizer whose output it consumes.
#[derive(Debug)]
pub struct Parser {
    tokenizer: Tokenizer,
}

impl Parser {
    /// The rewritten source behind the parser's tokens.
    pub closed spec fn src(&self) -> Seq<char> {
        self.tokenizer.src()
    }

    pub fn new(source: &str) -> (p: Parser)
        ensures
            p.src() == surrounded_text(source@),
    {
        Parser { tokenizer: Tokenizer::new(source) }
    }

    /// The token stream of the source.
    pub fn tokens(&self) -> (r: Option<Vec<Token<'_>>>)
    {
        self.tokenizer.tokenize()
    }

    /// Parses the source into its top-level expressions by keeping a stack
    /// of the expressions still being built. Returns `None` where the
    /// source does not tokenize, where a closing parenthesis has no
    /// opener, and where a node appears outside any expression: malformed
    /// input, by design a fatal error. An unclosed opening parenthesis is
    /// silently dropped.
    pub fn parse(&self) -> (r: Option<Program<'_>>)
    {
        let tokens = match self.tokenizer.tokenize() {
            Some(tokens) => tokens,
            None => {
                return None;
            },
        };
        let mut expressions: Vec<Expression<'_>> = Vec::new();
        let mut expr_stack: Vec<Expression<'_>> = Vec::new();

        let mut i: usize = 0;
        while i < tokens.len()
            invariant
                i <= tokens@.len(),
            decreases tokens@.len() - i,
        {
            let token = tokens[i];
            i = i + 1;
            match token {
                Token::LParen => expr_stack.push(Expression::new()),
                // Pop the current working expression back into the previous
                // one, or move it to the completed expressions when there is
                // no previous expression in the stack (which is to say: the
                // current expression is top-level).
                Token::RParen => {
                    match expr_stack.pop() {
                        Some(expression) => {
                            if expr_stack.len() == 0 {
                                expressions.push(expression);
                            } else {
                                push_inside(&mut expr_stack, Node::Expr(expression));
                            }
                        },
                        None => {
                            return None;
                        },
                    }
                },
                Token::Word(val) => {
                    if !push_inside(&mut expr_stack, Node::Ident(val)) {
                        return None;
                    }
                },
                Token::Int64(val) => {
                    if !push_inside(&mut expr_stack, Node::Int64(val)) {
                        return None;
                    }
                },
                other => {
                    if !push_inside(&mut expr_stack, Node::Builtin(other)) {
                        return None;
                    }
                },
            }
        }

        Some(Program(expressions))
    }
}

} // verus!
