//! The abstract syntax tree: statements and expressions as owned,
//! immutable trees, together with their mathematical models.

use vstd::prelude::*;

use crate::token::{Token, TokenModel};

verus! {

/// A parsed program: its statements in source order.
pub type Ast = Vec<Statement>;

/// One statement of the language.
#[derive(Debug)]
pub enum Statement {
    /// A `let` binding with its declared type and initializer.
    Let(LetStatement),
    /// A `return` with its value expression.
    Return(Expression),
    /// An expression evaluated for effect (a prefix-operator form).
    Expr(Expression),
    /// The `end` of a block.
    End,
}

/// A `let` binding: the identifier token, the type-name token, and the
/// initializer expression.
#[derive(Debug)]
pub struct LetStatement {
    pub name: Token,
    pub var_type: Token,
    pub expression: Expression,
}

/// An expression: a single literal or identifier token, or a prefix
/// operator applied to an operand.
#[derive(Debug)]
pub enum Expression {
    Value(Token),
    Prefix(PrefixExpr),
}

/// A prefix operator applied to an operand expression that it owns.
#[derive(Debug)]
pub struct PrefixExpr {
    pub operator: Token,
    pub right: Box<Expression>,
}

/// Model of an expression.
pub ghost enum ExprModel {
    Value(TokenModel),
    Prefix { operator: TokenModel, right: Box<ExprModel> },
}

/// Model of a `let` binding.
pub ghost struct LetModel {
    pub name: TokenModel,
    pub var_type: TokenModel,
    pub expression: ExprModel,
}

/// Model of a statement.
pub ghost enum StmtModel {
    Let(LetModel),
    Return(ExprModel),
    Expr(ExprModel),
    End,
}

/// The models of a parsed program's statements, in order.
pub open spec fn prog_model(v: Seq<Statement>) -> Seq<StmtModel> {
    v.map_values(|stmt: Statement| stmt@)
}

impl View for Expression {
    type V = ExprModel;

    open spec fn view(&self) -> ExprModel
        decreases self,
    {
        match self {
            Expression::Value(t) => ExprModel::Value(t@),
            Expression::Prefix(p) => ExprModel::Prefix {
                operator: p.operator@,
                right: Box::new((*p.right)@),
            },
        }
    }
}

impl View for LetStatement {
    type V = LetModel;

    open spec fn view(&self) -> LetModel {
        LetModel { name: self.name@, var_type: self.var_type@, expression: self.expression@ }
    }
}

impl View for Statement {
    type V = StmtModel;

    open spec fn view(&self) -> StmtModel {
        match self {
            Statement::Let(l) => StmtModel::Let(l@),
            Statement::Return(e) => StmtModel::Return(e@),
            Statement::Expr(e) => StmtModel::Expr(e@),
            Statement::End => StmtModel::End,
        }
    }
}

impl Statement {
    /// Wraps a `let` binding as a statement.
    pub fn new_let_statement(name: Token, var_type: Token, expression: Expression) -> (s: Statement)
        ensures
            s@ == StmtModel::Let(
                (LetModel { name: name@, var_type: var_type@, expression: expression@ }),
            ),
    {
        Statement::Let(LetStatement::new(name, var_type, expression))
    }

    /// Wraps a prefix operator and its operand as an expression statement.
    pub fn new_prefix_statement(operator: Token, right: Expression) -> (s: Statement)
        ensures
            s@ == StmtModel::Expr(
                (ExprModel::Prefix { operator: operator@, right: Box::new(right@) }),
            ),
    {
        let right = Box::<Expression>::new(right);
        Statement::Expr(Expression::Prefix(PrefixExpr { operator, right }))
    }
}

impl LetStatement {
    pub fn new(name: Token, var_type: Token, expression: Expression) -> (l: LetStatement)
        ensures
            l@ == (LetModel { name: name@, var_type: var_type@, expression: expression@ }),
    {
        LetStatement { name, var_type, expression }
    }
}

} // verus!
