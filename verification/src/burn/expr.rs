//! The expression tree of an install condition and its evaluation.
use vstd::hash_map::StringHashMap;
use vstd::prelude::*;

verus! {

/// What a variable of the installer's state is bound to.
#[derive(Debug, Clone, Copy)]
pub enum Value {
    Bool(bool),
    Int(u32),
}

/// A boolean expression over named variables.
#[derive(Debug)]
pub enum Expr {
    Var(String),
    Eq(String, u32),
    Not(Box<Expr>),
    And(Box<Expr>, Box<Expr>),
    Or(Box<Expr>, Box<Expr>),
}

/// The mathematical value of an [`Expr`].
pub enum ExprSpec {
    Var(Seq<char>),
    Eq(Seq<char>, u32),
    Not(Box<ExprSpec>),
    And(Box<ExprSpec>, Box<ExprSpec>),
    Or(Box<ExprSpec>, Box<ExprSpec>),
}

pub open spec fn expr_view(e: Expr) -> ExprSpec
    decreases e,
{
    match e {
        Expr::Var(name) => ExprSpec::Var(name@),
        Expr::Eq(name, n) => ExprSpec::Eq(name@, n),
        Expr::Not(inner) => ExprSpec::Not(Box::new(expr_view(*inner))),
        Expr::And(lhs, rhs) => ExprSpec::And(
            Box::new(expr_view(*lhs)),
            Box::new(expr_view(*rhs)),
        ),
        Expr::Or(lhs, rhs) => ExprSpec::Or(Box::new(expr_view(*lhs)), Box::new(expr_view(*rhs))),
    }
}

impl View for Expr {
    type V = ExprSpec;

    open spec fn view(&self) -> ExprSpec {
        expr_view(*self)
    }
}

/// The truth of a bare variable: a boolean as it is, an integer when it is not
/// zero, and `true` where the variable is unbound.
pub open spec fn truth_of(binding: Option<Value>) -> bool {
    match binding {
        Some(Value::Bool(b)) => b,
        Some(Value::Int(n)) => n != 0,
        None => true,
    }
}

/// Whether a binding equals a literal: an integer by value, a boolean when it
/// agrees with `literal == 1`, and `true` where the variable is unbound.
pub open spec fn equals_literal(binding: Option<Value>, literal: u32) -> bool {
    match binding {
        Some(Value::Int(n)) => n == literal,
        Some(Value::Bool(b)) => (literal == 1) == b,
        None => true,
    }
}

pub open spec fn lookup(variables: Map<Seq<char>, Value>, name: Seq<char>) -> Option<Value> {
    if variables.contains_key(name) {
        Some(variables[name])
    } else {
        None
    }
}

/// What an expression evaluates to under `variables`.
pub open spec fn eval_spec(e: ExprSpec, variables: Map<Seq<char>, Value>) -> bool
    decreases e,
{
    match e {
        ExprSpec::Var(name) => truth_of(lookup(variables, name)),
        ExprSpec::Eq(name, literal) => equals_literal(lookup(variables, name), literal),
        ExprSpec::Not(inner) => !eval_spec(*inner, variables),
        ExprSpec::And(lhs, rhs) => eval_spec(*lhs, variables) && eval_spec(*rhs, variables),
        ExprSpec::Or(lhs, rhs) => eval_spec(*lhs, variables) || eval_spec(*rhs, variables),
    }
}

/// Whether every variable that occurs in `e` is bound.
pub open spec fn all_bound(e: ExprSpec, variables: Map<Seq<char>, Value>) -> bool
    decreases e,
{
    match e {
        ExprSpec::Var(name) => variables.contains_key(name),
        ExprSpec::Eq(name, _) => variables.contains_key(name),
        ExprSpec::Not(inner) => all_bound(*inner, variables),
        ExprSpec::And(lhs, rhs) => all_bound(*lhs, variables) && all_bound(*rhs, variables),
        ExprSpec::Or(lhs, rhs) => all_bound(*lhs, variables) && all_bound(*rhs, variables),
    }
}

/// The variables of an installer's state, by name.
pub struct Bindings {
    map: StringHashMap<Value>,
}

impl View for Bindings {
    type V = Map<Seq<char>, Value>;

    closed spec fn view(&self) -> Map<Seq<char>, Value> {
        self.map@
    }
}

impl Bindings {
    /// No variable is bound.
    pub fn new() -> (bindings: Self)
        ensures
            bindings@ == Map::<Seq<char>, Value>::empty(),
    {
        Bindings { map: StringHashMap::new() }
    }

    /// Binds `name` to `value`, in place of an earlier binding of that name.
    pub fn insert(&mut self, name: &str, value: Value)
        ensures
            final(self)@ == old(self)@.insert(name@, value),
    {
        self.map.insert(name.to_owned(), value);
    }

    /// What `name` is bound to, if anything.
    pub fn get(&self, name: &str) -> (value: Option<Value>)
        ensures
            value == lookup(self@, name@),
    {
        match self.map.get(name) {
            Some(v) => Some(*v),
            None => None,
        }
    }
}

impl Expr {
    /// Evaluates the expression. Both operands of `AND` and `OR` count; an
    /// unbound variable counts as true.
    pub fn eval(&self, variables: &Bindings) -> (result: bool)
        ensures
            result == eval_spec(self@, variables@),
        decreases self,
    {
        match self {
            Expr::Var(name) => match variables.get(name.as_str()) {
                Some(Value::Bool(b)) => b,
                Some(Value::Int(n)) => n != 0,
                None => true,
            },
            Expr::Eq(name, literal) => match variables.get(name.as_str()) {
                Some(Value::Int(n)) => n == *literal,
                Some(Value::Bool(b)) => (*literal == 1) == b,
                None => true,
            },
            Expr::Not(inner) => !inner.eval(variables),
            Expr::And(lhs, rhs) => {
                let l = lhs.eval(variables);
                let r = rhs.eval(variables);
                l && r
            },
            Expr::Or(lhs, rhs) => {
                let l = lhs.eval(variables);
                let r = rhs.eval(variables);
                l || r
            },
        }
    }

    /// The first variable of the expression, from left to right, that
    /// `variables` does not bind: what a caller may want to report.
    pub fn first_unbound(&self, variables: &Bindings) -> (name: Option<String>)
        ensures
            name is None <==> all_bound(self@, variables@),
            name is Some ==> !variables@.contains_key(name.unwrap()@),
        decreases self,
    {
        match self {
            Expr::Var(name) | Expr::Eq(name, _) => match variables.get(name.as_str()) {
                Some(_) => None,
                None => Some(name.clone()),
            },
            Expr::Not(inner) => inner.first_unbound(variables),
            Expr::And(lhs, rhs) | Expr::Or(lhs, rhs) => match lhs.first_unbound(variables) {
                Some(name) => Some(name),
                None => rhs.first_unbound(variables),
            },
        }
    }
}

/// Whether no `NOT` occurs in `e`.
pub open spec fn negation_free(e: ExprSpec) -> bool
    decreases e,
{
    match e {
        ExprSpec::Var(_) => true,
        ExprSpec::Eq(_, _) => true,
        ExprSpec::Not(_) => false,
        ExprSpec::And(lhs, rhs) => negation_free(*lhs) && negation_free(*rhs),
        ExprSpec::Or(lhs, rhs) => negation_free(*lhs) && negation_free(*rhs),
    }
}

/// With no variable bound, an expression without `NOT` is true: unknown
/// state never blocks an install.
pub proof fn lemma_permissive_default(e: ExprSpec)
    requires
        negation_free(e),
    ensures
        eval_spec(e, Map::empty()),
    decreases e,
{
    match e {
        ExprSpec::And(lhs, rhs) => {
            lemma_permissive_default(*lhs);
            lemma_permissive_default(*rhs);
        },
        ExprSpec::Or(lhs, rhs) => {
            lemma_permissive_default(*lhs);
            lemma_permissive_default(*rhs);
        },
        _ => {},
    }
}

} // verus!
