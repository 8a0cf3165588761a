use crate::lexer::{lemma_scan_advances, scan, Lexer, Token, TokenModel, Type};
use vstd::prelude::*;

verus! {

/// A filter expression.
#[derive(Debug, PartialEq)]
pub enum Expression {
    Attribute { expression: Box<Expression>, name: String },
    Pipe { left: Box<Expression>, right: Box<Expression> },
    This,
}

/// The mathematical form of an expression.
pub enum Filter {
    Identity,
    Field { source: Box<Filter>, name: Seq<char> },
    Pipe { left: Box<Filter>, right: Box<Filter> },
}

impl Expression {
    pub open spec fn view(&self) -> Filter
        decreases self,
    {
        match self {
            Expression::This => Filter::Identity,
            Expression::Attribute { expression, name } => Filter::Field {
                source: Box::new(expression.view()),
                name: name@,
            },
            Expression::Pipe { left, right } => Filter::Pipe {
                left: Box::new(left.view()),
                right: Box::new(right.view()),
            },
        }
    }
}

/// A filter that cannot be parsed: the token that stood where it may not,
/// and the index of the character it starts at.
#[derive(Debug, PartialEq, Clone)]
pub struct ParseError {
    pub token: Token,
    pub position: usize,
}

/// The offending token and its position.
pub type ErrorModel = (TokenModel, int);

impl ParseError {
    pub open spec fn view(&self) -> ErrorModel {
        (self.token@, self.position as int)
    }
}

/// The mathematical form of a parse outcome.
pub open spec fn outcome(r: Result<Expression, ParseError>) -> Result<Filter, ErrorModel> {
    match r {
        Ok(e) => Ok(e@),
        Err(e) => Err(e@),
    }
}

/// Parses `text` from `pos` on, with `current` the expression built so far
/// and `after_dot` telling whether a dot was the last token read. An
/// identifier must follow a dot; a pipe takes everything after it as its
/// right side.
pub open spec fn parse_from(text: Seq<char>, pos: int, current: Filter, after_dot: bool) -> Result<
    Filter,
    ErrorModel,
>
    decreases text.len() - pos,
{
    if pos < 0 || pos >= text.len() {
        Ok(current)
    } else {
        proof {
            lemma_scan_advances(text, pos);
        }
        let next = scan(text, pos).1;
        match scan(text, pos).0 {
            None => parse_from(text, next, current, after_dot),
            Some(tok) => match tok.0 {
                Type::Dot => parse_from(text, next, current, true),
                Type::Identifier => if !after_dot {
                    Err((tok, pos))
                } else {
                    parse_from(
                        text,
                        next,
                        Filter::Field { source: Box::new(current), name: tok.1 },
                        false,
                    )
                },
                Type::Pipe => match parse_from(text, next, Filter::Identity, false) {
                    Ok(right) => Ok(Filter::Pipe { left: Box::new(current), right: Box::new(right) }),
                    Err(e) => Err(e),
                },
            },
        }
    }
}

/// The outcome of parsing a whole filter text.
pub open spec fn parse_text(text: Seq<char>) -> Result<Filter, ErrorModel> {
    parse_from(text, 0, Filter::Identity, false)
}

/// Parsing is a function of the text alone: two parses of one text have the
/// same outcome, and the expressions they build have the same structure.
pub proof fn lemma_parse_is_deterministic(
    text: Seq<char>,
    first: Result<Expression, ParseError>,
    second: Result<Expression, ParseError>,
)
    requires
        outcome(first) == parse_text(text),
        outcome(second) == parse_text(text),
    ensures
        outcome(first) == outcome(second),
        first is Ok <==> second is Ok,
        first is Ok ==> first->Ok_0@ == second->Ok_0@,
{
}

/// Parses the last of the program's arguments as a filter.
pub fn parse_filter(args: &Vec<String>) -> (r: Result<Expression, ParseError>)
    requires
        args.len() > 0,
    ensures
        outcome(r) == parse_text(args@.last()@),
{
    let filter = args[args.len() - 1].clone();
    Parser::parse(filter)
}

/// Builds an expression from the tokens of a filter text.
#[derive(Debug)]
pub struct Parser {
    lexer: Lexer,
}

impl Parser {
    pub fn parse(command: String) -> (r: Result<Expression, ParseError>)
        ensures
            outcome(r) == parse_text(command@),
    {
        let lexer = Lexer::on(command);
        let parser = Parser { lexer };
        parser.parse_expression()
    }

    fn parse_expression(self) -> (r: Result<Expression, ParseError>)
        requires
            self.lexer.inv(),
        ensures
            outcome(r) == parse_from(
                self.lexer.text(),
                self.lexer.position(),
                Filter::Identity,
                false,
            ),
    {
        let mut parser = self;
        parser.parse_attribute()
    }

    fn parse_attribute(&mut self) -> (r: Result<Expression, ParseError>)
        requires
            old(self).lexer.inv(),
        ensures
            final(self).lexer.inv(),
            final(self).lexer.text() == old(self).lexer.text(),
            outcome(r) == parse_from(
                old(self).lexer.text(),
                old(self).lexer.position(),
                Filter::Identity,
                false,
            ),
            r is Ok ==> final(self).lexer.position() == final(self).lexer.text().len(),
        decreases old(self).lexer.text().len() - old(self).lexer.position(),
    {
        let ghost text = self.lexer.text();
        let ghost start = self.lexer.position();
        let mut current = Expression::This;
        let mut after_dot = false;
        proof {
            self.lexer.lemma_position_bounds();
        }

        while self.lexer.has_remaining()
            invariant
                self.lexer.inv(),
                self.lexer.text() == text,
                text == old(self).lexer.text(),
                start == old(self).lexer.position(),
                start <= self.lexer.position() <= text.len(),
                parse_from(text, self.lexer.position(), current@, after_dot) == parse_from(
                    text,
                    start,
                    Filter::Identity,
                    false,
                ),
            decreases text.len() - self.lexer.position(),
        {
            let pos = self.lexer.offset();
            proof {
                lemma_scan_advances(text, pos as int);
            }
            let tok = self.lexer.next_token();
            match tok {
                None => {},
                Some(Token { token_type: Type::Dot, text: _ }) => {
                    after_dot = true;
                },
                Some(Token { token_type: Type::Identifier, text: name }) => {
                    if !after_dot {
                        let token = Token { token_type: Type::Identifier, text: name };
                        return Err(ParseError { token, position: pos });
                    }
                    after_dot = false;
                    let expression = Box::new(current);
                    current = Expression::Attribute { expression, name };
                },
                Some(Token { token_type: Type::Pipe, text: _ }) => {
                    let right = match self.parse_attribute() {
                        Ok(right) => right,
                        Err(e) => {
                            return Err(e);
                        },
                    };
                    current = Expression::Pipe { left: Box::new(current), right: Box::new(right) };
                },
            }
            proof {
                self.lexer.lemma_position_bounds();
            }
        }
        Ok(current)
    }
}

} // verus!
