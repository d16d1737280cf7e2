//! The grammar of install conditions, and a recursive-descent parser for it
//! with one function per level of precedence.
use crate::burn::expr::{Expr, ExprSpec};
use crate::burn::token::{token_views, Token, TokenSpec};
use crate::error::AnalysisError;
use vstd::prelude::*;

verus! {

/// An expression and the position of the first token behind it.
pub struct Parsed {
    pub expr: ExprSpec,
    pub next: int,
}

/// `Primary := '(' Or ')' | Ident ['=' Number]`, read at `pos`.
pub open spec fn parse_primary_spec(ts: Seq<TokenSpec>, pos: int) -> Option<Parsed>
    decreases ts.len() - pos, 0int,
{
    if pos < 0 || pos >= ts.len() {
        None
    } else {
        match ts[pos] {
            TokenSpec::LParen => match parse_or_spec(ts, pos + 1) {
                Some(inner) => if inner.next < ts.len() && ts[inner.next] is RParen {
                    Some(Parsed { expr: inner.expr, next: inner.next + 1 })
                } else {
                    None
                },
                None => None,
            },
            TokenSpec::Ident(name) => if pos + 1 < ts.len() && ts[pos + 1] is Eq {
                if pos + 2 < ts.len() && ts[pos + 2] is Number {
                    Some(Parsed { expr: ExprSpec::Eq(name, ts[pos + 2]->Number_0), next: pos + 3 })
                } else {
                    None
                }
            } else {
                Some(Parsed { expr: ExprSpec::Var(name), next: pos + 1 })
            },
            _ => None,
        }
    }
}

/// `Not := 'NOT' Primary | Primary`, read at `pos`.
pub open spec fn parse_not_spec(ts: Seq<TokenSpec>, pos: int) -> Option<Parsed>
    decreases ts.len() - pos, 1int,
{
    if 0 <= pos < ts.len() && ts[pos] is Not {
        match parse_primary_spec(ts, pos + 1) {
            Some(inner) => Some(Parsed { expr: ExprSpec::Not(Box::new(inner.expr)), next: inner.next }),
            None => None,
        }
    } else {
        parse_primary_spec(ts, pos)
    }
}

/// The rest of a conjunction whose operands so far make `lhs`: zero or more
/// `'AND' Not`, read at `pos` and joined to the left.
pub open spec fn parse_and_rest_spec(ts: Seq<TokenSpec>, lhs: ExprSpec, pos: int) -> Option<Parsed>
    decreases ts.len() - pos, 2int,
{
    if 0 <= pos < ts.len() && ts[pos] is And {
        match parse_not_spec(ts, pos + 1) {
            Some(rhs) => if pos < rhs.next <= ts.len() {
                parse_and_rest_spec(ts, ExprSpec::And(Box::new(lhs), Box::new(rhs.expr)), rhs.next)
            } else {
                None
            },
            None => None,
        }
    } else {
        Some(Parsed { expr: lhs, next: pos })
    }
}

/// `And := Not ('AND' Not)*`, read at `pos`. The bound on the position behind
/// the first operand lets the recursion end; it holds of every operand that
/// parses (`lemma_parse_advances`).
pub open spec fn parse_and_spec(ts: Seq<TokenSpec>, pos: int) -> Option<Parsed>
    decreases ts.len() - pos, 3int,
{
    match parse_not_spec(ts, pos) {
        Some(first) => if pos < first.next <= ts.len() {
            parse_and_rest_spec(ts, first.expr, first.next)
        } else {
            None
        },
        None => None,
    }
}

/// The rest of a disjunction whose operands so far make `lhs`: zero or more
/// `'OR' And`, read at `pos` and joined to the left.
pub open spec fn parse_or_rest_spec(ts: Seq<TokenSpec>, lhs: ExprSpec, pos: int) -> Option<Parsed>
    decreases ts.len() - pos, 4int,
{
    if 0 <= pos < ts.len() && ts[pos] is Or {
        match parse_and_spec(ts, pos + 1) {
            Some(rhs) => if pos < rhs.next <= ts.len() {
                parse_or_rest_spec(ts, ExprSpec::Or(Box::new(lhs), Box::new(rhs.expr)), rhs.next)
            } else {
                None
            },
            None => None,
        }
    } else {
        Some(Parsed { expr: lhs, next: pos })
    }
}

/// `Or := And ('OR' And)*`, read at `pos`. The bound on the position behind
/// the first operand lets the recursion end; it holds of every operand that
/// parses (`lemma_and_advances`).
pub open spec fn parse_or_spec(ts: Seq<TokenSpec>, pos: int) -> Option<Parsed>
    decreases ts.len() - pos, 5int,
{
    match parse_and_spec(ts, pos) {
        Some(first) => if pos < first.next <= ts.len() {
            parse_or_rest_spec(ts, first.expr, first.next)
        } else {
            None
        },
        None => None,
    }
}

/// The expression that a token sequence starts with, if it starts with one.
/// Tokens behind the expression are not read.
pub open spec fn parse_spec(ts: Seq<TokenSpec>) -> Option<ExprSpec> {
    match parse_or_spec(ts, 0) {
        Some(parsed) => Some(parsed.expr),
        None => None,
    }
}

/// A recursive-descent parser over a token list.
pub struct Parser {
    pub tokens: Vec<Token>,
    pub pos: usize,
}

/// What a parsing method owes: on a sentence the expression and the new
/// position, strictly behind the old one; on anything else the error.
pub open spec fn parsed_as(
    expected: Option<Parsed>,
    result: Result<Expr, AnalysisError>,
    before: Parser,
    after: Parser,
) -> bool {
    &&& after.tokens == before.tokens
    &&& match expected {
        Some(parsed) => {
            &&& result is Ok
            &&& result->Ok_0@ == parsed.expr
            &&& after.pos == parsed.next
            &&& before.pos < after.pos <= before.tokens.len()
        },
        None => result == Err::<Expr, AnalysisError>(AnalysisError::MalformedExpression),
    }
}

/// Whether two tokens are the same token.
pub fn same_token(a: &Token, b: &Token) -> (same: bool)
    ensures
        same == (a@ == b@),
{
    match (a, b) {
        (Token::LParen, Token::LParen) => true,
        (Token::RParen, Token::RParen) => true,
        (Token::And, Token::And) => true,
        (Token::Or, Token::Or) => true,
        (Token::Not, Token::Not) => true,
        (Token::Eq, Token::Eq) => true,
        (Token::Ident(x), Token::Ident(y)) => *x == *y,
        (Token::Number(x), Token::Number(y)) => *x == *y,
        _ => false,
    }
}

impl Parser {
    pub open spec fn spec_tokens(&self) -> Seq<TokenSpec> {
        token_views(self.tokens@)
    }

    /// Whether the token at the current position is `token`.
    pub open spec fn at(&self, token: TokenSpec) -> bool {
        self.pos < self.tokens.len() && self.tokens[self.pos as int]@ == token
    }

    /// A parser at the first token.
    pub fn new(tokens: Vec<Token>) -> (parser: Self)
        ensures
            parser.tokens == tokens,
            parser.pos == 0,
    {
        Parser { tokens, pos: 0 }
    }

    /// The token at the current position, if there is one.
    pub fn peek(&self) -> (token: Option<&Token>)
        ensures
            match token {
                Some(t) => self.pos < self.tokens.len() && *t == self.tokens[self.pos as int],
                None => self.pos >= self.tokens.len(),
            },
    {
        if self.pos < self.tokens.len() {
            Some(&self.tokens[self.pos])
        } else {
            None
        }
    }

    /// Steps over one token; at the end of the tokens it stays.
    pub fn advance(&mut self)
        ensures
            final(self).tokens == old(self).tokens,
            final(self).pos == if old(self).pos < old(self).tokens.len() {
                old(self).pos + 1
            } else {
                old(self).pos as int
            },
    {
        if self.pos < self.tokens.len() {
            self.pos = self.pos + 1;
        }
    }

    /// Steps over the token at the current position if it is `expected`, and
    /// reports a malformed expression otherwise.
    pub fn expect(&mut self, expected: &Token) -> (result: Result<(), AnalysisError>)
        ensures
            final(self).tokens == old(self).tokens,
            old(self).at(expected@) ==> result is Ok && final(self).pos == old(self).pos + 1,
            !old(self).at(expected@) ==> result == Err::<(), AnalysisError>(
                AnalysisError::MalformedExpression,
            ) && final(self).pos == old(self).pos,
    {
        let found = match self.peek() {
            Some(token) => same_token(token, expected),
            None => false,
        };
        if found {
            self.advance();
            Ok(())
        } else {
            Err(AnalysisError::MalformedExpression)
        }
    }

    /// Parses a whole expression at the current position.
    pub fn parse_expr(&mut self) -> (result: Result<Expr, AnalysisError>)
        requires
            old(self).pos <= old(self).tokens.len(),
        ensures
            parsed_as(
                parse_or_spec(old(self).spec_tokens(), old(self).pos as int),
                result,
                *old(self),
                *final(self),
            ),
        decreases old(self).tokens.len() - old(self).pos, 6int,
    {
        self.parse_or()
    }

    /// Parses a disjunction at the current position.
    pub fn parse_or(&mut self) -> (result: Result<Expr, AnalysisError>)
        requires
            old(self).pos <= old(self).tokens.len(),
        ensures
            parsed_as(
                parse_or_spec(old(self).spec_tokens(), old(self).pos as int),
                result,
                *old(self),
                *final(self),
            ),
        decreases old(self).tokens.len() - old(self).pos, 5int,
    {
        let ghost ts = self.spec_tokens();
        let ghost start = *self;
        let mut expr = match self.parse_and() {
            Ok(e) => e,
            Err(e) => {
                return Err(e);
            },
        };
        let ghost goal = parse_or_rest_spec(ts, expr@, self.pos as int);
        loop
            invariant
                start == *old(self),
                self.tokens == start.tokens,
                ts == start.spec_tokens(),
                start.pos < self.pos <= self.tokens.len(),
                goal == parse_or_spec(ts, start.pos as int),
                goal == parse_or_rest_spec(ts, expr@, self.pos as int),
            decreases self.tokens.len() - self.pos,
        {
            let more = match self.peek() {
                Some(Token::Or) => true,
                _ => false,
            };
            assert(more == (self.pos < ts.len() && ts[self.pos as int] is Or));
            if !more {
                return Ok(expr);
            }
            self.advance();
            let rhs = match self.parse_and() {
                Ok(e) => e,
                Err(e) => {
                    return Err(e);
                },
            };
            expr = Expr::Or(Box::new(expr), Box::new(rhs));
        }
    }

    /// Parses a conjunction at the current position.
    pub fn parse_and(&mut self) -> (result: Result<Expr, AnalysisError>)
        requires
            old(self).pos <= old(self).tokens.len(),
        ensures
            parsed_as(
                parse_and_spec(old(self).spec_tokens(), old(self).pos as int),
                result,
                *old(self),
                *final(self),
            ),
        decreases old(self).tokens.len() - old(self).pos, 3int,
    {
        let ghost ts = self.spec_tokens();
        let ghost start = *self;
        let mut expr = match self.parse_not() {
            Ok(e) => e,
            Err(e) => {
                return Err(e);
            },
        };
        let ghost goal = parse_and_rest_spec(ts, expr@, self.pos as int);
        loop
            invariant
                start == *old(self),
                self.tokens == start.tokens,
                ts == start.spec_tokens(),
                start.pos < self.pos <= self.tokens.len(),
                goal == parse_and_spec(ts, start.pos as int),
                goal == parse_and_rest_spec(ts, expr@, self.pos as int),
            decreases self.tokens.len() - self.pos,
        {
            let more = match self.peek() {
                Some(Token::And) => true,
                _ => false,
            };
            assert(more == (self.pos < ts.len() && ts[self.pos as int] is And));
            if !more {
                return Ok(expr);
            }
            self.advance();
            let rhs = match self.parse_not() {
                Ok(e) => e,
                Err(e) => {
                    return Err(e);
                },
            };
            expr = Expr::And(Box::new(expr), Box::new(rhs));
        }
    }

    /// Parses an optionally negated primary at the current position.
    pub fn parse_not(&mut self) -> (result: Result<Expr, AnalysisError>)
        requires
            old(self).pos <= old(self).tokens.len(),
        ensures
            parsed_as(
                parse_not_spec(old(self).spec_tokens(), old(self).pos as int),
                result,
                *old(self),
                *final(self),
            ),
        decreases old(self).tokens.len() - old(self).pos, 1int,
    {
        let negated = match self.peek() {
            Some(Token::Not) => true,
            _ => false,
        };
        assert(negated == (self.pos < self.spec_tokens().len() && self.spec_tokens()[self.pos as int]
            is Not));
        if negated {
            self.advance();
            match self.parse_primary() {
                Ok(inner) => Ok(Expr::Not(Box::new(inner))),
                Err(e) => Err(e),
            }
        } else {
            self.parse_primary()
        }
    }

    /// Parses a parenthesised expression, a variable or an equality at the
    /// current position.
    pub fn parse_primary(&mut self) -> (result: Result<Expr, AnalysisError>)
        requires
            old(self).pos <= old(self).tokens.len(),
        ensures
            parsed_as(
                parse_primary_spec(old(self).spec_tokens(), old(self).pos as int),
                result,
                *old(self),
                *final(self),
            ),
        decreases old(self).tokens.len() - old(self).pos, 0int,
    {
        let ghost ts = self.spec_tokens();
        if self.pos >= self.tokens.len() {
            return Err(AnalysisError::MalformedExpression);
        }
        assert(ts[self.pos as int] == self.tokens[self.pos as int]@);
        match &self.tokens[self.pos] {
            Token::LParen => {
                self.pos = self.pos + 1;
                let expr = match self.parse_expr() {
                    Ok(e) => e,
                    Err(e) => {
                        return Err(e);
                    },
                };
                assert(self.pos < ts.len() ==> ts[self.pos as int] == self.tokens[self.pos as int]@);
                match self.expect(&Token::RParen) {
                    Ok(()) => Ok(expr),
                    Err(e) => Err(e),
                }
            },
            Token::Ident(name) => {
                let name = name.clone();
                self.pos = self.pos + 1;
                let is_eq = match self.peek() {
                    Some(Token::Eq) => true,
                    _ => false,
                };
                assert(self.pos < ts.len() ==> ts[self.pos as int] == self.tokens[self.pos as int]@);
                if is_eq {
                    self.pos = self.pos + 1;
                    assert(self.pos < ts.len() ==> ts[self.pos as int] == self.tokens[self.pos as int]@);
                    match self.peek() {
                        Some(Token::Number(n)) => {
                            let n = *n;
                            self.pos = self.pos + 1;
                            Ok(Expr::Eq(name, n))
                        },
                        _ => Err(AnalysisError::MalformedExpression),
                    }
                } else {
                    Ok(Expr::Var(name))
                }
            },
            _ => Err(AnalysisError::MalformedExpression),
        }
    }
}

/// `AND` binds tighter than `OR`: whatever the names, `a OR b AND c` is the
/// disjunction of `a` with the conjunction of `b` and `c`.
pub proof fn lemma_and_binds_tighter(a: Seq<char>, b: Seq<char>, c: Seq<char>)
    ensures
        parse_spec(
            seq![
                TokenSpec::Ident(a),
                TokenSpec::Or,
                TokenSpec::Ident(b),
                TokenSpec::And,
                TokenSpec::Ident(c),
            ],
        ) == Some(
            ExprSpec::Or(
                Box::new(ExprSpec::Var(a)),
                Box::new(ExprSpec::And(Box::new(ExprSpec::Var(b)), Box::new(ExprSpec::Var(c)))),
            ),
        ),
{
    let ts = seq![
        TokenSpec::Ident(a),
        TokenSpec::Or,
        TokenSpec::Ident(b),
        TokenSpec::And,
        TokenSpec::Ident(c),
    ];
    let va = ExprSpec::Var(a);
    let vb = ExprSpec::Var(b);
    let vc = ExprSpec::Var(c);
    let bc = ExprSpec::And(Box::new(vb), Box::new(vc));
    let all = ExprSpec::Or(Box::new(va), Box::new(bc));
    assert(ts[0] == TokenSpec::Ident(a) && ts[1] == TokenSpec::Or && ts[2] == TokenSpec::Ident(b)
        && ts[3] == TokenSpec::And && ts[4] == TokenSpec::Ident(c));
    assert(parse_primary_spec(ts, 0) == Some(Parsed { expr: va, next: 1 }));
    assert(parse_not_spec(ts, 0) == Some(Parsed { expr: va, next: 1 }));
    assert(parse_and_rest_spec(ts, va, 1) == Some(Parsed { expr: va, next: 1 }));
    assert(parse_and_spec(ts, 0) == Some(Parsed { expr: va, next: 1 }));
    assert(parse_primary_spec(ts, 2) == Some(Parsed { expr: vb, next: 3 }));
    assert(parse_not_spec(ts, 2) == Some(Parsed { expr: vb, next: 3 }));
    assert(parse_primary_spec(ts, 4) == Some(Parsed { expr: vc, next: 5 }));
    assert(parse_not_spec(ts, 4) == Some(Parsed { expr: vc, next: 5 }));
    assert(parse_and_rest_spec(ts, bc, 5) == Some(Parsed { expr: bc, next: 5 }));
    assert(parse_and_rest_spec(ts, vb, 3) == Some(Parsed { expr: bc, next: 5 }));
    assert(parse_and_spec(ts, 2) == Some(Parsed { expr: bc, next: 5 }));
    assert(parse_or_rest_spec(ts, all, 5) == Some(Parsed { expr: all, next: 5 }));
    assert(parse_or_rest_spec(ts, va, 1) == Some(Parsed { expr: all, next: 5 }));
    assert(parse_or_spec(ts, 0) == Some(Parsed { expr: all, next: 5 }));
}

/// A sentence never parses to nothing read: a parse that succeeds ends
/// behind where it began, and inside the tokens.
pub proof fn lemma_parse_advances(ts: Seq<TokenSpec>, pos: int)
    requires
        0 <= pos,
    ensures
        parse_primary_spec(ts, pos) is Some ==> pos < parse_primary_spec(ts, pos).unwrap().next
            <= ts.len(),
        parse_not_spec(ts, pos) is Some ==> pos < parse_not_spec(ts, pos).unwrap().next <= ts.len(),
    decreases ts.len() - pos,
{
    if pos < ts.len() {
        if ts[pos] is LParen {
            lemma_or_advances(ts, pos + 1);
        }
        if ts[pos] is Not {
            if pos + 1 < ts.len() && ts[pos + 1] is LParen {
                lemma_or_advances(ts, pos + 2);
            }
        }
    }
}

/// A disjunction that parses ends behind where it began, and inside the
/// tokens.
pub proof fn lemma_or_advances(ts: Seq<TokenSpec>, pos: int)
    requires
        0 <= pos,
    ensures
        parse_or_spec(ts, pos) is Some ==> pos < parse_or_spec(ts, pos).unwrap().next <= ts.len(),
    decreases ts.len() - pos,
{
    match parse_and_spec(ts, pos) {
        Some(first) => {
            if pos < first.next <= ts.len() {
                lemma_or_rest_advances(ts, first.expr, first.next);
            }
        },
        None => {},
    }
}

/// A conjunction that parses ends behind where it began, and inside the
/// tokens.
pub proof fn lemma_and_advances(ts: Seq<TokenSpec>, pos: int)
    requires
        0 <= pos,
    ensures
        parse_and_spec(ts, pos) is Some ==> pos < parse_and_spec(ts, pos).unwrap().next <= ts.len(),
    decreases ts.len() - pos,
{
    match parse_not_spec(ts, pos) {
        Some(first) => {
            if pos < first.next <= ts.len() {
                lemma_and_rest_advances(ts, first.expr, first.next);
            }
        },
        None => {},
    }
}

/// The rest of a conjunction ends at or behind where it began, and inside
/// the tokens.
pub proof fn lemma_and_rest_advances(ts: Seq<TokenSpec>, lhs: ExprSpec, pos: int)
    requires
        0 <= pos <= ts.len(),
    ensures
        parse_and_rest_spec(ts, lhs, pos) is Some ==> pos <= parse_and_rest_spec(
            ts,
            lhs,
            pos,
        ).unwrap().next <= ts.len(),
    decreases ts.len() - pos,
{
    if pos < ts.len() && ts[pos] is And {
        match parse_not_spec(ts, pos + 1) {
            Some(rhs) => {
                if pos < rhs.next <= ts.len() {
                    lemma_and_rest_advances(
                        ts,
                        ExprSpec::And(Box::new(lhs), Box::new(rhs.expr)),
                        rhs.next,
                    );
                }
            },
            None => {},
        }
    }
}

/// The rest of a disjunction ends at or behind where it began, and inside
/// the tokens.
pub proof fn lemma_or_rest_advances(ts: Seq<TokenSpec>, lhs: ExprSpec, pos: int)
    requires
        0 <= pos <= ts.len(),
    ensures
        parse_or_rest_spec(ts, lhs, pos) is Some ==> pos <= parse_or_rest_spec(
            ts,
            lhs,
            pos,
        ).unwrap().next <= ts.len(),
    decreases ts.len() - pos,
{
    if pos < ts.len() && ts[pos] is Or {
        match parse_and_spec(ts, pos + 1) {
            Some(rhs) => {
                if pos < rhs.next <= ts.len() {
                    lemma_or_rest_advances(
                        ts,
                        ExprSpec::Or(Box::new(lhs), Box::new(rhs.expr)),
                        rhs.next,
                    );
                }
            },
            None => {},
        }
    }
}

} // verus!
