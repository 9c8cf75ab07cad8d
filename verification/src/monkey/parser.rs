//! A Pratt parser over the lexer's token stream. Parsing returns `None`
//! for input that does not parse; the recursive descent is bounded by a
//! fuel argument derived from the input length, which no parseable input
//! exhausts.

use vstd::prelude::*;

use crate::monkey::ast::Expression;
use crate::monkey::ast::Program;
use crate::monkey::ast::Statement;
use crate::monkey::ast::is_infix_op;
use crate::monkey::ast::is_prefix_op;
use crate::monkey::ast::wf_expr;
use crate::monkey::ast::wf_stmt;
use crate::monkey::lexer::Lexer;
use crate::monkey::lexer::lexable;
use crate::monkey::token::Token;

verus! {

/// Operator precedence levels, weakest first: the order of declaration is
/// the order of binding strength.
#[derive(Debug, PartialEq, Eq, Clone, Copy, Structural)]
pub enum Precedence {
    Lowest,
    /// `==` and `!=`
    Equals,
    /// `<` and `>`
    LessOrGreaterThan,
    /// `+` and `-`
    Sum,
    /// `*` and `/`
    Product,
    /// `-x` or `!x`
    Prefix,
    /// `my_function(x)`
    Call,
}

/// Each precedence as a number, for comparisons: declaration order.
pub open spec fn spec_level(p: Precedence) -> u8 {
    match p {
        Precedence::Lowest => 0,
        Precedence::Equals => 1,
        Precedence::LessOrGreaterThan => 2,
        Precedence::Sum => 3,
        Precedence::Product => 4,
        Precedence::Prefix => 5,
        Precedence::Call => 6,
    }
}

impl Precedence {
    /// The numeric rank of this precedence level.
    pub fn level(self) -> (r: u8)
        ensures
            r == spec_level(self),
    {
        match self {
            Precedence::Lowest => 0,
            Precedence::Equals => 1,
            Precedence::LessOrGreaterThan => 2,
            Precedence::Sum => 3,
            Precedence::Product => 4,
            Precedence::Prefix => 5,
            Precedence::Call => 6,
        }
    }
}

/// Whether a token can join two expressions.
fn is_infix_token(t: &Token<'_>) -> (r: bool)
    ensures
        r == is_infix_op(*t),
{
    matches!(
        t,
        Token::Plus
        | Token::Minus
        | Token::Slash
        | Token::Asterisk
        | Token::EQ
        | Token::NotEQ
        | Token::LT
        | Token::GT
    )
}

/// The parser keeps the current token and one token of lookahead over the
/// lexer.
pub struct Parser<'input> {
    lexer: Lexer<'input>,
    curr_token: Option<Token<'input>>,
    peek_token: Option<Token<'input>>,
}

impl<'input> Parser<'input> {
    pub closed spec fn wf(&self) -> bool {
        self.lexer.wf()
    }

    pub fn new(input: &'input str) -> (p: Parser<'input>)
        requires
            lexable(input),
        ensures
            p.wf(),
    {
        let mut lexer = Lexer::new(input);
        let curr_token = lexer.next_token();
        let peek_token = lexer.next_token();
        Parser { lexer, curr_token, peek_token }
    }

    fn next_token(&mut self)
        requires
            old(self).wf(),
        ensures
            final(self).wf(),
    {
        self.curr_token = self.peek_token;
        self.peek_token = self.lexer.next_token();
    }

    /// Parses the whole input into a program. Returns `None` where some
    /// statement cannot be parsed.
    pub fn parse_program(&mut self) -> (r: Option<Program<'input>>)
        requires
            old(self).wf(),
        ensures
            final(self).wf(),
            r is Some ==> forall|i: int|
                0 <= i < r->0.statements@.len() ==> wf_stmt(#[trigger] r->0.statements@[i]),
    {
        let mut program = Program::new();
        let budget = self.lexer.source_len();
        let stmt_fuel: u32 = (budget + 2) as u32;
        let mut fuel: usize = budget + 2;
        while self.curr_token.is_some()
            invariant
                self.wf(),
                forall|i: int|
                    0 <= i < program.statements@.len() ==> wf_stmt(
                        #[trigger] program.statements@[i],
                    ),
            decreases fuel,
        {
            if fuel == 0 {
                return None;
            }
            fuel = fuel - 1;
            match self.parse_statement(stmt_fuel) {
                Some(statement) => program.statements.push(statement),
                None => {
                    return None;
                },
            }
            self.next_token();
        }
        Some(program)
    }

    fn parse_statement(&mut self, fuel: u32) -> (r: Option<Statement<'input>>)
        requires
            old(self).wf(),
        ensures
            final(self).wf(),
            r is Some ==> wf_stmt(r->0),
    {
        match self.curr_token {
            Some(Token::Let) => self.parse_let_statement(fuel),
            Some(Token::Return) => self.parse_return_statement(fuel),
            Some(_) => self.parse_expression_statement(fuel),
            None => None,
        }
    }

    fn parse_expression_statement(&mut self, fuel: u32) -> (r: Option<Statement<'input>>)
        requires
            old(self).wf(),
        ensures
            final(self).wf(),
            r is Some ==> wf_stmt(r->0),
    {
        let expression = match self.parse_expression(0, fuel) {
            Some(e) => e,
            None => {
                return None;
            },
        };
        // An optional semicolon may follow the expression.
        if matches!(self.peek_token, Some(Token::Semicolon)) {
            self.next_token();
        }
        Some(Statement::Expression(expression))
    }

    fn parse_let_statement(&mut self, fuel: u32) -> (r: Option<Statement<'input>>)
        requires
            old(self).wf(),
        ensures
            final(self).wf(),
            r is Some ==> wf_stmt(r->0),
    {
        let name = match self.peek_token {
            Some(Token::Ident(name)) => name,
            _ => {
                return None;
            },
        };
        self.next_token();
        if !matches!(self.peek_token, Some(Token::Assign)) {
            return None;
        }
        self.next_token();
        // Move past the `=` onto the first token of the value expression.
        self.next_token();
        let value = match self.parse_expression(0, fuel) {
            Some(e) => e,
            None => {
                return None;
            },
        };
        if matches!(self.peek_token, Some(Token::Semicolon)) {
            self.next_token();
        }
        Some(Statement::Let { name, value })
    }

    fn parse_return_statement(&mut self, fuel: u32) -> (r: Option<Statement<'input>>)
        requires
            old(self).wf(),
        ensures
            final(self).wf(),
            r is Some ==> wf_stmt(r->0),
    {
        self.next_token();
        let value = match self.parse_expression(0, fuel) {
            Some(e) => e,
            None => {
                return None;
            },
        };
        if matches!(self.peek_token, Some(Token::Semicolon)) {
            self.next_token();
        }
        Some(Statement::Return(value))
    }

    fn parse_expression(&mut self, precedence: u8, fuel: u32) -> (r: Option<Expression<'input>>)
        requires
            old(self).wf(),
        ensures
            final(self).wf(),
            r is Some ==> wf_expr(r->0),
        decreases fuel, 3int,
    {
        if fuel == 0 {
            return None;
        }
        let token = match self.curr_token {
            Some(t) => t,
            None => {
                return None;
            },
        };
        let mut left = match self.parse_prefix_token(token, fuel - 1) {
            Some(e) => e,
            None => {
                return None;
            },
        };
        let mut inner_fuel = fuel;
        loop
            invariant
                self.wf(),
                wf_expr(left),
                inner_fuel <= fuel,
            ensures
                self.wf(),
                wf_expr(left),
            decreases inner_fuel,
        {
            let peeked = match self.peek_token {
                Some(t) => t,
                None => { break },
            };
            if matches!(peeked, Token::Semicolon) {
                break ;
            }
            if precedence >= peeked.get_precedence().level() {
                break ;
            }
            if inner_fuel == 0 {
                return None;
            }
            inner_fuel = inner_fuel - 1;
            if is_infix_token(&peeked) {
                self.next_token();
                left = match self.parse_infix_token(peeked, left, inner_fuel) {
                    Some(e) => e,
                    None => {
                        return None;
                    },
                };
            } else {
                return Some(left);
            }
        }
        Some(left)
    }

    /// Parses the given token in prefix position.
    fn parse_prefix_token(&mut self, token: Token<'input>, fuel: u32) -> (r: Option<
        Expression<'input>,
    >)
        requires
            old(self).wf(),
        ensures
            final(self).wf(),
            r is Some ==> wf_expr(r->0),
        decreases fuel, 2int,
    {
        match token {
            Token::Ident(val) => Some(Expression::Identifier(val)),
            Token::Int(val) => Some(Expression::IntegerLiteral(val)),
            Token::Bang => self.parse_prefix_expression(token, fuel),
            Token::Minus => self.parse_prefix_expression(token, fuel),
            _ => None,
        }
    }

    fn parse_prefix_expression(&mut self, operator: Token<'input>, fuel: u32) -> (r: Option<
        Expression<'input>,
    >)
        requires
            old(self).wf(),
            is_prefix_op(operator),
        ensures
            final(self).wf(),
            r is Some ==> wf_expr(r->0),
        decreases fuel, 1int,
    {
        if fuel == 0 {
            return None;
        }
        self.next_token();
        match self.parse_expression(Precedence::Prefix.level(), fuel - 1) {
            Some(right) => Some(Expression::Prefix { operator, right: Box::new(right) }),
            None => None,
        }
    }

    /// Parses the given token in infix position, with `left` already
    /// parsed.
    fn parse_infix_token(
        &mut self,
        operator: Token<'input>,
        left: Expression<'input>,
        fuel: u32,
    ) -> (r: Option<Expression<'input>>)
        requires
            old(self).wf(),
            is_infix_op(operator),
            wf_expr(left),
        ensures
            final(self).wf(),
            r is Some ==> wf_expr(r->0),
        decreases fuel, 1int,
    {
        if fuel == 0 {
            return None;
        }
        let precedence = match self.curr_token {
            Some(t) => t.get_precedence(),
            None => {
                return None;
            },
        };
        self.next_token();
        match self.parse_expression(precedence.level(), fuel - 1) {
            Some(right) => Some(
                Expression::Infix { left: Box::new(left), operator, right: Box::new(right) },
            ),
            None => None,
        }
    }
}

} // verus!
