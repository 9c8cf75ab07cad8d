//! A parser for a flat lisp expression grammar: a program is a sequence of
//! expressions `(identifier value*)`, where an identifier is an operator
//! or a word, and a value is a word or a decimal number.

use vstd::prelude::*;

use crate::lispy::alnum_char;
use crate::lispy::op_char;
use crate::text::lemma_pow10_18_fits;
use crate::text::lemma_pow10_mono;
use crate::text::pow10;

verus! {

use vstd::string::StrSliceExecFns;

/// The grammar's entry point; the parsing functions hang off this marker
/// type.
#[derive(Debug, Clone, Copy, PartialEq, Eq)]
pub struct LispParser;

/// One parsed expression: its identifier and its argument values.
#[derive(Debug, PartialEq, Eq)]
pub struct Expression<'a> {
    pub identifier: &'a str,
    pub args: Vec<LispyValue<'a>>,
}

#[derive(Debug, PartialEq, Eq)]
pub enum LispyValue<'a> {
    Number(i64),
    Word(&'a str),
}

/// An ASCII letter.
pub open spec fn is_alpha_char(c: char) -> bool {
    ('a' <= c && c <= 'z') || ('A' <= c && c <= 'Z')
}

fn alpha_char(c: char) -> (r: bool)
    ensures
        r == is_alpha_char(c),
{
    ('a' <= c && c <= 'z') || ('A' <= c && c <= 'Z')
}

fn ws_char(c: char) -> bool {
    c == ' ' || c == '\t' || c == '\n' || c == '\x0c' || c == '\r'
}

/// Advances past whitespace.
fn skip_ws(code: &str, len: usize, pos: usize) -> (r: usize)
    requires
        len == code@.len(),
        pos <= len,
    ensures
        pos <= r <= len,
{
    let mut i = pos;
    loop
        invariant
            pos <= i <= len,
            len == code@.len(),
        ensures
            pos <= i <= len,
        decreases len - i,
    {
        if i >= len {
            break ;
        }
        if !ws_char(code.get_char(i)) {
            break ;
        }
        i = i + 1;
    }
    i
}

/// Reads a run of characters satisfying the class picked by `alnum`
/// (alphanumeric) or not (operator characters).
fn read_run(code: &str, len: usize, pos: usize, alnum: bool) -> (r: usize)
    requires
        len == code@.len(),
        pos <= len,
    ensures
        pos <= r <= len,
{
    let mut i = pos;
    loop
        invariant
            pos <= i <= len,
            len == code@.len(),
        ensures
            pos <= i <= len,
        decreases len - i,
    {
        if i >= len {
            break ;
        }
        let c = code.get_char(i);
        let keep = if alnum {
            alnum_char(c)
        } else {
            op_char(c)
        };
        if !keep {
            break ;
        }
        i = i + 1;
    }
    i
}

/// Parses a decimal number of at most eighteen digits.
fn parse_number(code: &str, from: usize, to: usize) -> (r: Option<i64>)
    requires
        code@.len() >= to,
        from <= to,
{
    if to - from > 18 {
        return None;
    }
    let mut i = from;
    let mut val: i64 = 0;
    while i < to
        invariant
            from <= i <= to,
            to <= code@.len(),
            to - from <= 18,
            0 <= val < pow10((i - from) as nat),
        decreases to - i,
    {
        let c = code.get_char(i);
        if !('0' <= c && c <= '9') {
            return None;
        }
        proof {
            lemma_pow10_mono((i - from) as nat, 17);
            lemma_pow10_18_fits();
        }
        val = val * 10 + ((c as u32 - 48) as i64);
        i = i + 1;
    }
    Some(val)
}

/// Parses a whole program: expressions until the input is exhausted.
/// Returns `None` on anything the grammar does not cover.
pub fn parse_program<'a>(code_str: &'a str) -> (r: Option<Vec<Expression<'a>>>) {
    let len = code_str.unicode_len();
    let mut exprs: Vec<Expression<'a>> = Vec::new();
    let mut pos: usize = 0;
    loop
        invariant
            pos <= len,
            len == code_str@.len(),
        decreases len - pos,
    {
        pos = skip_ws(code_str, len, pos);
        if pos >= len {
            return Some(exprs);
        }
        match parse_expr(code_str, len, pos) {
            Some((expr, next)) => {
                exprs.push(expr);
                if next <= pos {
                    return None;
                }
                pos = next;
            },
            None => {
                return None;
            },
        }
    }
}

/// Parses one parenthesized expression starting at `pos`, returning it and
/// the position after its closing parenthesis.
fn parse_expr<'a>(code: &'a str, len: usize, pos: usize) -> (r: Option<(Expression<'a>, usize)>)
    requires
        len == code@.len(),
        pos < len,
    ensures
        r is Some ==> pos < (r->0).1 <= len,
{
    if code.get_char(pos) != '(' {
        return None;
    }
    let mut i = skip_ws(code, len, pos + 1);
    if i >= len {
        return None;
    }
    let c = code.get_char(i);
    let ident_end = if op_char(c) {
        read_run(code, len, i, false)
    } else if alpha_char(c) {
        read_run(code, len, i, true)
    } else {
        return None;
    };
    let identifier = code.substring_char(i, ident_end);
    let mut expr = Expression { identifier, args: Vec::new() };
    i = ident_end;
    loop
        invariant
            pos < i <= len,
            len == code@.len(),
        decreases len - i,
    {
        i = skip_ws(code, len, i);
        if i >= len {
            return None;
        }
        let c2 = code.get_char(i);
        if c2 == ')' {
            return Some((expr, i + 1));
        }
        if '0' <= c2 && c2 <= '9' {
            let end = read_run(code, len, i, true);
            match parse_number(code, i, end) {
                Some(v) => expr.args.push(LispyValue::Number(v)),
                None => {
                    return None;
                },
            }
            if end <= i {
                return None;
            }
            i = end;
        } else if alpha_char(c2) {
            let end = read_run(code, len, i, true);
            expr.args.push(LispyValue::Word(code.substring_char(i, end)));
            if end <= i {
                return None;
            }
            i = end;
        } else {
            return None;
        }
    }
}

} // verus!
