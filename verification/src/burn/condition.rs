//! Install conditions of a Burn bundle: parsed once, evaluated many times.
use crate::burn::expr::{eval_spec, Bindings, Expr, ExprSpec};
use crate::burn::parser::{parse_spec, Parser};
use crate::burn::token::{tokenize, tokenize_spec};
use crate::error::AnalysisError;
use vstd::prelude::*;

verus! {

/// A parsed install condition: immutable, evaluated any number of times.
#[derive(Debug)]
pub struct InstallCondition(pub Expr);

/// The expression that a condition string denotes, if it is well formed.
pub open spec fn condition_spec(input: Seq<char>) -> Option<ExprSpec> {
    parse_spec(tokenize_spec(input))
}

impl View for InstallCondition {
    type V = ExprSpec;

    open spec fn view(&self) -> ExprSpec {
        self.0@
    }
}

impl InstallCondition {
    /// Parses a condition string. Fails on a string that does not start with
    /// an expression of the grammar.
    pub fn new(input: &str) -> (result: Result<Self, AnalysisError>)
        ensures
            match condition_spec(input@) {
                Some(expr) => result is Ok && result->Ok_0@ == expr,
                None => result == Err::<Self, AnalysisError>(AnalysisError::MalformedExpression),
            },
    {
        let mut parser = Parser::new(tokenize(input));
        match parser.parse_expr() {
            Ok(expr) => Ok(InstallCondition(expr)),
            Err(e) => Err(e),
        }
    }

    /// Evaluates the condition under `variables`.
    pub fn evaluate(&self, variables: &Bindings) -> (result: bool)
        ensures
            result == eval_spec(self@, variables@),
    {
        self.inner().eval(variables)
    }

    /// The expression tree.
    pub fn inner(&self) -> (expr: &Expr)
        ensures
            *expr == self.0,
    {
        &self.0
    }
}

} // verus!
