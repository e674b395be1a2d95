//! The abstract syntax tree produced by the parser.
//!
//! Nodes are owned trees. A function definition shares its parameter list and
//! body through reference counting, so that a function value's copy of them is
//! the same value as the one in the tree; this is what lets the evaluator's
//! contracts speak about the body a closure will run.
//!
//! Type annotations are recorded but never enforced; the evaluator is
//! indifferent to them.

use std::rc::Rc;
use vstd::prelude::*;

verus! {

#[derive(Debug)]
pub enum Expr {
    // Literals; a float literal keeps its source text
    Integer(i64),
    Float(String),
    String(String),
    Boolean(bool),
    Nil,
    // Identifiers
    Identifier(String),
    // Binary operations
    Binary { left: Box<Expr>, operator: BinaryOperator, right: Box<Expr> },
    // Unary operations
    Unary { operator: UnaryOperator, operand: Box<Expr> },
    // Function calls
    Call { name: String, args: Vec<Expr> },
    // Method calls
    MethodCall { object: Box<Expr>, method: String, args: Vec<Expr> },
    // Array literals
    Array(Vec<Expr>),
    // Map literals
    MapLit(Vec<(Expr, Expr)>),
    // Array/map indexing
    Index { object: Box<Expr>, index: Box<Expr> },
    // Field access
    FieldAccess { object: Box<Expr>, field: String },
    // String interpolation
    Interpolation(Vec<InterpolationPart>),
    // Command execution
    Command(String),
    // Pipeline
    Pipeline { left: Box<Expr>, right: Box<Expr> },
    // Range
    Range { start: Box<Expr>, end: Box<Expr> },
}

#[derive(Debug)]
pub enum InterpolationPart {
    Text(String),
    Expression(Box<Expr>),
}

#[derive(Clone, Copy, PartialEq, Eq, Structural, Debug)]
pub enum BinaryOperator {
    // Arithmetic
    Add,
    Subtract,
    Multiply,
    Divide,
    Modulo,
    Power,
    // Comparison
    Equal,
    NotEqual,
    Less,
    LessEqual,
    Greater,
    GreaterEqual,
    // Logical
    And,
    Or,
    // Bitwise
    BitwiseAnd,
    BitwiseOr,
    BitwiseXor,
    LeftShift,
    RightShift,
}

#[derive(Clone, Copy, PartialEq, Eq, Structural, Debug)]
pub enum UnaryOperator {
    Not,
    Minus,
    BitwiseNot,
}

#[derive(Debug)]
pub enum Stmt {
    // Expression statement
    Expression(Expr),
    // Variable declarations
    Let { name: String, type_annotation: Option<Type>, value: Expr },
    Const { name: String, type_annotation: Option<Type>, value: Expr },
    // Assignment
    Assignment { target: AssignmentTarget, operator: AssignmentOperator, value: Expr },
    // Control flow
    If { condition: Expr, then_block: Vec<Stmt>, else_block: Option<Vec<Stmt>> },
    For { variable: String, iterable: Expr, body: Vec<Stmt> },
    While { condition: Expr, body: Vec<Stmt> },
    // Functions
    Function {
        name: String,
        parameters: Rc<Vec<Parameter>>,
        return_type: Option<Type>,
        body: Rc<Vec<Stmt>>,
    },
    Return(Option<Expr>),
    // Error handling
    Try { body: Vec<Stmt>, catch_clauses: Vec<CatchClause> },
    // Pattern matching
    Match { expr: Expr, arms: Vec<MatchArm> },
    // Control flow
    Break,
    Continue,
}

#[derive(Debug)]
pub enum AssignmentTarget {
    Identifier(String),
    Index { object: Box<Expr>, index: Box<Expr> },
    FieldAccess { object: Box<Expr>, field: String },
}

#[derive(Clone, Copy, PartialEq, Eq, Structural, Debug)]
pub enum AssignmentOperator {
    Assign,
    AddAssign,
    SubtractAssign,
}

#[derive(Debug)]
pub struct Parameter {
    pub name: String,
    pub type_annotation: Option<Type>,
}

#[derive(Debug)]
pub struct CatchClause {
    pub exception_type: Option<String>,
    pub variable: Option<String>,
    pub body: Vec<Stmt>,
}

#[derive(Debug)]
pub struct MatchArm {
    pub pattern: Pattern,
    pub body: Vec<Stmt>,
}

#[derive(Debug)]
pub enum Pattern {
    Literal(Expr),
    Identifier(String),
    Wildcard,
}

#[derive(Debug)]
pub enum Type {
    Int,
    Float,
    String,
    Bool,
    Array(Box<Type>),
    MapType { key_type: Box<Type>, value_type: Box<Type> },
    Function { parameters: Vec<Type>, return_type: Box<Type> },
    Custom(String),
    Any,
}

#[derive(Debug)]
pub struct Program {
    pub statements: Vec<Stmt>,
}

impl Program {
    pub fn new() -> (p: Program)
        ensures
            p.statements@ == Seq::<Stmt>::empty(),
    {
        Program { statements: Vec::new() }
    }

    pub fn add_statement(&mut self, stmt: Stmt)
        ensures
            final(self).statements@ == old(self).statements@.push(stmt),
    {
        self.statements.push(stmt);
    }
}

} // verus!
