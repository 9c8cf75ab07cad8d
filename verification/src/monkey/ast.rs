//! The abstract syntax tree the parser produces, and its textual rendering.

use vstd::prelude::*;

use crate::monkey::token::Token;
use crate::text::int_string;
use crate::text::int_text;

verus! {

use vstd::string::StringExecFns;

/// A parsed program: its statements in order.
#[derive(Debug)]
pub struct Program<'input> {
    pub statements: Vec<Statement<'input>>,
}

impl Program<'_> {
    pub fn new() -> (p: Self)
        ensures
            p.statements@.len() == 0,
    {
        Program { statements: Vec::new() }
    }
}

#[derive(Debug, PartialEq, Eq)]
pub enum Statement<'input> {
    Let { name: &'input str, value: Expression<'input> },
    Return(Expression<'input>),
    Expression(Expression<'input>),
}

#[derive(Debug, PartialEq, Eq)]
pub enum Expression<'input> {
    Identifier(&'input str),
    IntegerLiteral(i64),
    Prefix { operator: Token<'input>, right: Box<Expression<'input>> },
    Infix {
        left: Box<Expression<'input>>,
        operator: Token<'input>,
        right: Box<Expression<'input>>,
    },
}

/// The operators that may begin a prefix expression.
pub open spec fn is_prefix_op(t: Token<'_>) -> bool {
    t is Bang || t is Minus
}

/// The operators that may join two expressions.
pub open spec fn is_infix_op(t: Token<'_>) -> bool {
    ||| t is Plus
    ||| t is Minus
    ||| t is Slash
    ||| t is Asterisk
    ||| t is EQ
    ||| t is NotEQ
    ||| t is LT
    ||| t is GT
}

/// A well-formed expression only uses prefix operators in prefix position
/// and infix operators in infix position.
pub open spec fn wf_expr(e: Expression<'_>) -> bool
    decreases e,
{
    match e {
        Expression::Identifier(_) => true,
        Expression::IntegerLiteral(_) => true,
        Expression::Prefix { operator, right } => is_prefix_op(operator) && wf_expr(*right),
        Expression::Infix { left, operator, right } => is_infix_op(operator) && wf_expr(*left)
            && wf_expr(*right),
    }
}

pub open spec fn wf_stmt(s: Statement<'_>) -> bool {
    match s {
        Statement::Let { name: _, value } => wf_expr(value),
        Statement::Return(e) => wf_expr(e),
        Statement::Expression(e) => wf_expr(e),
    }
}

/// The text each token renders as.
pub open spec fn token_text(t: Token<'_>) -> Seq<char> {
    match t {
        Token::Illegal => "illegal"@,
        Token::Ident(s) => s@,
        Token::Int(v) => int_text(v as int),
        Token::Assign => "="@,
        Token::Plus => "+"@,
        Token::Minus => "-"@,
        Token::Bang => "!"@,
        Token::Asterisk => "*"@,
        Token::Slash => "/"@,
        Token::LT => "<"@,
        Token::GT => ">"@,
        Token::EQ => "=="@,
        Token::NotEQ => "!="@,
        Token::Comma => ","@,
        Token::Semicolon => ";"@,
        Token::LParen => "("@,
        Token::RParen => ")"@,
        Token::LBrace => "{"@,
        Token::RBrace => "}"@,
        Token::Function => "fn"@,
        Token::Let => "let"@,
        Token::True => "true"@,
        Token::False => "false"@,
        Token::If => "if"@,
        Token::Else => "else"@,
        Token::Return => "return"@,
    }
}

/// The text an expression renders as: prefix and infix expressions are
/// fully parenthesized, which is what makes operator precedence visible in
/// the rendering.
pub open spec fn expr_text(e: Expression<'_>) -> Seq<char>
    decreases e,
{
    match e {
        Expression::Identifier(s) => s@,
        Expression::IntegerLiteral(v) => int_text(v as int),
        Expression::Prefix { operator, right } => "("@ + token_text(operator) + expr_text(*right)
            + ")"@,
        Expression::Infix { left, operator, right } => "("@ + expr_text(*left) + " "@ + token_text(
            operator,
        ) + " "@ + expr_text(*right) + ")"@,
    }
}

/// The text a statement renders as, semicolon included.
pub open spec fn stmt_text(s: Statement<'_>) -> Seq<char> {
    match s {
        Statement::Let { name, value } => "let "@ + name@ + " = "@ + expr_text(value) + ";"@,
        Statement::Return(e) => "return "@ + expr_text(e) + ";"@,
        Statement::Expression(e) => expr_text(e) + ";"@,
    }
}

/// The rendering of each token.
fn token_to_text(t: &Token<'_>) -> (r: String)
    ensures
        r@ == token_text(*t),
{
    match t {
        Token::Illegal => String::from_str("illegal"),
        Token::Ident(s) => String::from_str(s),
        Token::Int(v) => int_string(*v),
        Token::Assign => String::from_str("="),
        Token::Plus => String::from_str("+"),
        Token::Minus => String::from_str("-"),
        Token::Bang => String::from_str("!"),
        Token::Asterisk => String::from_str("*"),
        Token::Slash => String::from_str("/"),
        Token::LT => String::from_str("<"),
        Token::GT => String::from_str(">"),
        Token::EQ => String::from_str("=="),
        Token::NotEQ => String::from_str("!="),
        Token::Comma => String::from_str(","),
        Token::Semicolon => String::from_str(";"),
        Token::LParen => String::from_str("("),
        Token::RParen => String::from_str(")"),
        Token::LBrace => String::from_str("{"),
        Token::RBrace => String::from_str("}"),
        Token::Function => String::from_str("fn"),
        Token::Let => String::from_str("let"),
        Token::True => String::from_str("true"),
        Token::False => String::from_str("false"),
        Token::If => String::from_str("if"),
        Token::Else => String::from_str("else"),
        Token::Return => String::from_str("return"),
    }
}

impl Expression<'_> {
    /// Renders the expression, fully parenthesized.
    pub fn to_text(&self) -> (r: String)
        ensures
            r@ == expr_text(*self),
        decreases *self,
    {
        match self {
            Expression::Identifier(s) => String::from_str(s),
            Expression::IntegerLiteral(v) => int_string(*v),
            Expression::Prefix { operator, right } => {
                let mut s = String::from_str("(");
                s.append(token_to_text(operator).as_str());
                s.append(right.to_text().as_str());
                s.append(")");
                proof {
                    assert(s@ =~= expr_text(*self));
                }
                s
            },
            Expression::Infix { left, operator, right } => {
                let mut s = String::from_str("(");
                s.append(left.to_text().as_str());
                s.append(" ");
                s.append(token_to_text(operator).as_str());
                s.append(" ");
                s.append(right.to_text().as_str());
                s.append(")");
                proof {
                    assert(s@ =~= expr_text(*self));
                }
                s
            },
        }
    }
}

impl Statement<'_> {
    /// Renders the statement, semicolon included.
    pub fn to_text(&self) -> (r: String)
        ensures
            r@ == stmt_text(*self),
    {
        match self {
            Statement::Let { name, value } => {
                let mut s = String::from_str("let ");
                s.append(name);
                s.append(" = ");
                s.append(value.to_text().as_str());
                s.append(";");
                proof {
                    assert(s@ =~= stmt_text(*self));
                }
                s
            },
            Statement::Return(e) => {
                let mut s = String::from_str("return ");
                s.append(e.to_text().as_str());
                s.append(";");
                proof {
                    assert(s@ =~= stmt_text(*self));
                }
                s
            },
            Statement::Expression(e) => {
                let mut s = e.to_text();
                s.append(";");
                proof {
                    assert(s@ =~= stmt_text(*self));
                }
                s
            },
        }
    }
}

} // verus!
