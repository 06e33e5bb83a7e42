//! The AST model: node shapes for a program as an ordered sequence of
//! statements. The statement and expression capabilities are closed sum
//! types, so shape inspection is checked, exhaustive matching; every node
//! exposes the literal text of its defining token through `Node`.

use vstd::prelude::*;
use crate::token::{Token, TokenModel, token_display};

verus! {

/// Model of an identifier node.
pub struct IdentifierModel {
    pub token: TokenModel,
    pub value: Seq<char>,
}

/// Model of an expression node.
pub enum ExpressionModel {
    Identifier(IdentifierModel),
}

/// Model of a let statement.
pub struct LetStatementModel {
    pub token: TokenModel,
    pub name: IdentifierModel,
    pub value: ExpressionModel,
}

/// Model of a return statement.
pub struct ReturnStatementModel {
    pub token: TokenModel,
    pub return_value: ExpressionModel,
}

/// Model of a statement node.
pub enum StatementModel {
    Let(LetStatementModel),
    Return(ReturnStatementModel),
}

/// The placeholder standing in for an expression that is not parsed yet:
/// an empty identifier with an end-of-input token.
pub open spec fn placeholder_expression_model() -> ExpressionModel {
    ExpressionModel::Identifier(IdentifierModel { token: TokenModel::Eof, value: Seq::empty() })
}

/// Every AST node exposes a literal textual representation of its defining
/// token, used for diagnostics and tests.
pub trait Node {
    /// The literal text the node renders to.
    spec fn literal_spec(&self) -> Seq<char>;

    /// Whether the literal may be rendered: no illegal-character token may
    /// reach a display context.
    spec fn literal_ok(&self) -> bool;

    /// The literal text of the node's defining token.
    fn token_literal(&self) -> (r: String)
        requires
            self.literal_ok(),
        ensures
            r@ == self.literal_spec(),
    ;
}

/// An identifier: an expression that names a bound value.
pub struct Identifier {
    pub token: Token,
    pub value: String,
}

impl View for Identifier {
    type V = IdentifierModel;

    open spec fn view(&self) -> IdentifierModel {
        IdentifierModel { token: self.token@, value: self.value@ }
    }
}

impl Node for Identifier {
    open spec fn literal_spec(&self) -> Seq<char> {
        token_display(self.token@)
    }

    open spec fn literal_ok(&self) -> bool {
        !(self.token@ is Illegal)
    }

    fn token_literal(&self) -> (r: String) {
        self.token.literal()
    }
}

/// An expression: a construct that produces a value.
pub enum Expression {
    Identifier(Identifier),
}

impl View for Expression {
    type V = ExpressionModel;

    open spec fn view(&self) -> ExpressionModel {
        match self {
            Expression::Identifier(i) => ExpressionModel::Identifier(i@),
        }
    }
}

impl Node for Expression {
    open spec fn literal_spec(&self) -> Seq<char> {
        match self {
            Expression::Identifier(i) => i.literal_spec(),
        }
    }

    open spec fn literal_ok(&self) -> bool {
        match self {
            Expression::Identifier(i) => i.literal_ok(),
        }
    }

    fn token_literal(&self) -> (r: String) {
        match self {
            Expression::Identifier(i) => i.token_literal(),
        }
    }
}

/// A let statement: `let <identifier> = <expression> ;`.
pub struct LetStatement {
    pub token: Token,
    pub name: Identifier,
    pub value: Expression,
}

impl View for LetStatement {
    type V = LetStatementModel;

    open spec fn view(&self) -> LetStatementModel {
        LetStatementModel { token: self.token@, name: self.name@, value: self.value@ }
    }
}

impl Node for LetStatement {
    open spec fn literal_spec(&self) -> Seq<char> {
        token_display(self.token@)
    }

    open spec fn literal_ok(&self) -> bool {
        !(self.token@ is Illegal)
    }

    fn token_literal(&self) -> (r: String) {
        self.token.literal()
    }
}

/// A return statement: `return <expression> ;`.
pub struct ReturnStatement {
    pub token: Token,
    pub return_value: Expression,
}

impl View for ReturnStatement {
    type V = ReturnStatementModel;

    open spec fn view(&self) -> ReturnStatementModel {
        ReturnStatementModel { token: self.token@, return_value: self.return_value@ }
    }
}

impl Node for ReturnStatement {
    open spec fn literal_spec(&self) -> Seq<char> {
        token_display(self.token@)
    }

    open spec fn literal_ok(&self) -> bool {
        !(self.token@ is Illegal)
    }

    fn token_literal(&self) -> (r: String) {
        self.token.literal()
    }
}

/// A statement: a top-level member of a program.
pub enum Statement {
    Let(LetStatement),
    Return(ReturnStatement),
}

impl View for Statement {
    type V = StatementModel;

    open spec fn view(&self) -> StatementModel {
        match self {
            Statement::Let(s) => StatementModel::Let(s@),
            Statement::Return(s) => StatementModel::Return(s@),
        }
    }
}

impl Statement {
    /// Checked downcast to the let-statement shape.
    pub fn as_let_statement(&self) -> (r: Option<&LetStatement>)
        ensures
            (match self {
                Statement::Let(s) => r == Some(s),
                Statement::Return(_) => r is None,
            }),
    {
        match self {
            Statement::Let(s) => Some(s),
            Statement::Return(_) => None,
        }
    }

    /// Checked downcast to the return-statement shape.
    pub fn as_return_statement(&self) -> (r: Option<&ReturnStatement>)
        ensures
            (match self {
                Statement::Return(s) => r == Some(s),
                Statement::Let(_) => r is None,
            }),
    {
        match self {
            Statement::Return(s) => Some(s),
            Statement::Let(_) => None,
        }
    }
}

impl Node for Statement {
    open spec fn literal_spec(&self) -> Seq<char> {
        match self {
            Statement::Let(s) => s.literal_spec(),
            Statement::Return(s) => s.literal_spec(),
        }
    }

    open spec fn literal_ok(&self) -> bool {
        match self {
            Statement::Let(s) => s.literal_ok(),
            Statement::Return(s) => s.literal_ok(),
        }
    }

    fn token_literal(&self) -> (r: String) {
        match self {
            Statement::Let(s) => s.token_literal(),
            Statement::Return(s) => s.token_literal(),
        }
    }
}

/// The root of the AST: an ordered sequence of statements, in the order
/// they were parsed, which is the program's execution order.
pub struct Program {
    pub statements: Vec<Statement>,
}

impl View for Program {
    type V = Seq<StatementModel>;

    open spec fn view(&self) -> Seq<StatementModel> {
        self.statements@.map_values(|s: Statement| s@)
    }
}

impl Node for Program {
    open spec fn literal_spec(&self) -> Seq<char> {
        if self.statements@.len() > 0 {
            self.statements@[0].literal_spec()
        } else {
            Seq::empty()
        }
    }

    open spec fn literal_ok(&self) -> bool {
        self.statements@.len() > 0 ==> self.statements@[0].literal_ok()
    }

    /// The literal of the first statement, or the empty string for an
    /// empty program — a deliberate degenerate case, not an error.
    fn token_literal(&self) -> (r: String) {
        if self.statements.len() > 0 {
            self.statements[0].token_literal()
        } else {
            String::new()
        }
    }
}

} // verus!
