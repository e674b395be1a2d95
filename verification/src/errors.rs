//! Runtime and parse failures.
//!
//! Failures are structured values; rendering one as text is a separate step,
//! so that callers can match on the failure itself rather than on a message.

use crate::ast::{BinaryOperator, UnaryOperator};
use crate::strutil::int_str;
use crate::token::TokenKind;
use vstd::prelude::*;
use vstd::string::StringExecFns;

verus! {

/// A failure during evaluation.
#[derive(Debug)]
pub enum RuntimeError {
    UndefinedVariable(String),
    ConstAssignment(String),
    DivisionByZero,
    IntegerOverflow,
    UnsupportedBinary { op: BinaryOperator, left: String, right: String },
    UnsupportedUnary { op: UnaryOperator, operand: String },
    ArityMismatch { name: String, expected: usize, actual: usize },
    UnsupportedStatement,
    UnsupportedExpression,
    UnsupportedTarget,
    RecursionLimit,
    HostError(String),
    CommandFailed { command: String, code: i64 },
    CommandNotFound(String),
    CommandError { command: String, message: String },
}

/// The mathematical shadow of a [`RuntimeError`]: the same variants over
/// character sequences and unbounded integers.
pub enum ErrS {
    UndefinedVariable(Seq<char>),
    ConstAssignment(Seq<char>),
    DivisionByZero,
    IntegerOverflow,
    UnsupportedBinary { op: BinaryOperator, left: Seq<char>, right: Seq<char> },
    UnsupportedUnary { op: UnaryOperator, operand: Seq<char> },
    ArityMismatch { name: Seq<char>, expected: int, actual: int },
    UnsupportedStatement,
    UnsupportedExpression,
    UnsupportedTarget,
    RecursionLimit,
    HostError(Seq<char>),
    CommandFailed { command: Seq<char>, code: int },
    CommandNotFound(Seq<char>),
    CommandError { command: Seq<char>, message: Seq<char> },
}

pub open spec fn err_model(e: RuntimeError) -> ErrS {
    match e {
        RuntimeError::UndefinedVariable(n) => ErrS::UndefinedVariable(n@),
        RuntimeError::ConstAssignment(n) => ErrS::ConstAssignment(n@),
        RuntimeError::DivisionByZero => ErrS::DivisionByZero,
        RuntimeError::IntegerOverflow => ErrS::IntegerOverflow,
        RuntimeError::UnsupportedBinary { op, left, right } => ErrS::UnsupportedBinary {
            op,
            left: left@,
            right: right@,
        },
        RuntimeError::UnsupportedUnary { op, operand } => ErrS::UnsupportedUnary {
            op,
            operand: operand@,
        },
        RuntimeError::ArityMismatch { name, expected, actual } => ErrS::ArityMismatch {
            name: name@,
            expected: expected as int,
            actual: actual as int,
        },
        RuntimeError::UnsupportedStatement => ErrS::UnsupportedStatement,
        RuntimeError::UnsupportedExpression => ErrS::UnsupportedExpression,
        RuntimeError::UnsupportedTarget => ErrS::UnsupportedTarget,
        RuntimeError::RecursionLimit => ErrS::RecursionLimit,
        RuntimeError::HostError(m) => ErrS::HostError(m@),
        RuntimeError::CommandFailed { command, code } => ErrS::CommandFailed {
            command: command@,
            code: code as int,
        },
        RuntimeError::CommandNotFound(c) => ErrS::CommandNotFound(c@),
        RuntimeError::CommandError { command, message } => ErrS::CommandError {
            command: command@,
            message: message@,
        },
    }
}

/// The name of a binary operator, as written in error messages.
pub open spec fn binary_op_name(op: BinaryOperator) -> Seq<char> {
    match op {
        BinaryOperator::Add => "Add"@,
        BinaryOperator::Subtract => "Subtract"@,
        BinaryOperator::Multiply => "Multiply"@,
        BinaryOperator::Divide => "Divide"@,
        BinaryOperator::Modulo => "Modulo"@,
        BinaryOperator::Power => "Power"@,
        BinaryOperator::Equal => "Equal"@,
        BinaryOperator::NotEqual => "NotEqual"@,
        BinaryOperator::Less => "Less"@,
        BinaryOperator::LessEqual => "LessEqual"@,
        BinaryOperator::Greater => "Greater"@,
        BinaryOperator::GreaterEqual => "GreaterEqual"@,
        BinaryOperator::And => "And"@,
        BinaryOperator::Or => "Or"@,
        BinaryOperator::BitwiseAnd => "BitwiseAnd"@,
        BinaryOperator::BitwiseOr => "BitwiseOr"@,
        BinaryOperator::BitwiseXor => "BitwiseXor"@,
        BinaryOperator::LeftShift => "LeftShift"@,
        BinaryOperator::RightShift => "RightShift"@,
    }
}

fn binary_op_name_exec(op: BinaryOperator) -> (r: &'static str)
    ensures
        r@ == binary_op_name(op),
{
    match op {
        BinaryOperator::Add => "Add",
        BinaryOperator::Subtract => "Subtract",
        BinaryOperator::Multiply => "Multiply",
        BinaryOperator::Divide => "Divide",
        BinaryOperator::Modulo => "Modulo",
        BinaryOperator::Power => "Power",
        BinaryOperator::Equal => "Equal",
        BinaryOperator::NotEqual => "NotEqual",
        BinaryOperator::Less => "Less",
        BinaryOperator::LessEqual => "LessEqual",
        BinaryOperator::Greater => "Greater",
        BinaryOperator::GreaterEqual => "GreaterEqual",
        BinaryOperator::And => "And",
        BinaryOperator::Or => "Or",
        BinaryOperator::BitwiseAnd => "BitwiseAnd",
        BinaryOperator::BitwiseOr => "BitwiseOr",
        BinaryOperator::BitwiseXor => "BitwiseXor",
        BinaryOperator::LeftShift => "LeftShift",
        BinaryOperator::RightShift => "RightShift",
    }
}

/// The name of a unary operator, as written in error messages.
pub open spec fn unary_op_name(op: UnaryOperator) -> Seq<char> {
    match op {
        UnaryOperator::Not => "Not"@,
        UnaryOperator::Minus => "Minus"@,
        UnaryOperator::BitwiseNot => "BitwiseNot"@,
    }
}

fn unary_op_name_exec(op: UnaryOperator) -> (r: &'static str)
    ensures
        r@ == unary_op_name(op),
{
    match op {
        UnaryOperator::Not => "Not",
        UnaryOperator::Minus => "Minus",
        UnaryOperator::BitwiseNot => "BitwiseNot",
    }
}

/// The text of a runtime failure.
pub open spec fn err_message(e: ErrS) -> Seq<char> {
    match e {
        ErrS::UndefinedVariable(n) => "Undefined variable: "@ + n,
        ErrS::ConstAssignment(n) => "Cannot assign to const variable: "@ + n,
        ErrS::DivisionByZero => "Division by zero"@,
        ErrS::IntegerOverflow => "Integer overflow in division"@,
        ErrS::UnsupportedBinary { op, left, right } => "Unsupported operation: "@ + left + " "@
            + binary_op_name(op) + " "@ + right,
        ErrS::UnsupportedUnary { op, operand } => "Unsupported unary operation: "@ + unary_op_name(
            op,
        ) + " "@ + operand,
        ErrS::ArityMismatch { name, expected, actual } => "Function "@ + name + " expects "@
            + int_str(expected) + " arguments, got "@ + int_str(actual),
        ErrS::UnsupportedStatement => "Statement type not yet implemented"@,
        ErrS::UnsupportedExpression => "Expression type not yet implemented"@,
        ErrS::UnsupportedTarget => "Complex assignment targets not yet supported"@,
        ErrS::RecursionLimit => "Evaluation depth limit exceeded"@,
        ErrS::HostError(m) => m,
        ErrS::CommandFailed { command, code } => "Command '"@ + command
            + "' failed with exit code "@ + int_str(code),
        ErrS::CommandNotFound(c) => "Command not found: "@ + c,
        ErrS::CommandError { command, message } => "Failed to execute command '"@ + command + "': "@
            + message,
    }
}

impl RuntimeError {
    /// Renders this failure as text.
    pub fn message(&self) -> (r: String)
        ensures
            r@ == err_message(err_model(*self)),
    {
        let r = match self {
            RuntimeError::UndefinedVariable(n) => String::from_str("Undefined variable: ").concat(
                n.as_str(),
            ),
            RuntimeError::ConstAssignment(n) => String::from_str(
                "Cannot assign to const variable: ",
            ).concat(n.as_str()),
            RuntimeError::DivisionByZero => String::from_str("Division by zero"),
            RuntimeError::IntegerOverflow => String::from_str("Integer overflow in division"),
            RuntimeError::UnsupportedBinary { op, left, right } => String::from_str(
                "Unsupported operation: ",
            ).concat(left.as_str()).concat(" ").concat(binary_op_name_exec(*op)).concat(
                " ",
            ).concat(right.as_str()),
            RuntimeError::UnsupportedUnary { op, operand } => String::from_str(
                "Unsupported unary operation: ",
            ).concat(unary_op_name_exec(*op)).concat(" ").concat(operand.as_str()),
            RuntimeError::ArityMismatch { name, expected, actual } => {
                let e = crate::strutil::u64_to_string(*expected as u64);
                let a = crate::strutil::u64_to_string(*actual as u64);
                String::from_str("Function ").concat(name.as_str()).concat(" expects ").concat(
                    e.as_str(),
                ).concat(" arguments, got ").concat(a.as_str())
            },
            RuntimeError::UnsupportedStatement => String::from_str(
                "Statement type not yet implemented",
            ),
            RuntimeError::UnsupportedExpression => String::from_str(
                "Expression type not yet implemented",
            ),
            RuntimeError::UnsupportedTarget => String::from_str(
                "Complex assignment targets not yet supported",
            ),
            RuntimeError::RecursionLimit => String::from_str("Evaluation depth limit exceeded"),
            RuntimeError::HostError(m) => m.clone(),
            RuntimeError::CommandFailed { command, code } => {
                let c = crate::strutil::i64_to_string(*code);
                String::from_str("Command '").concat(command.as_str()).concat(
                    "' failed with exit code ",
                ).concat(c.as_str())
            },
            RuntimeError::CommandNotFound(c) => String::from_str("Command not found: ").concat(
                c.as_str(),
            ),
            RuntimeError::CommandError { command, message } => String::from_str(
                "Failed to execute command '",
            ).concat(command.as_str()).concat("': ").concat(message.as_str()),
        };
        proof {
            assert(r@ =~= err_message(err_model(*self)));
        }
        r
    }
}

/// A failure during parsing. The parse stops at the first one.
#[derive(Clone, Copy, PartialEq, Eq, Structural, Debug)]
pub enum ParseError {
    /// A token that no grammar rule accepts here.
    UnexpectedToken(TokenKind),
    /// A particular token was required.
    ExpectedToken { expected: TokenKind, found: TokenKind },
    /// An identifier was required.
    ExpectedIdentifier { found: TokenKind },
    /// The input ended where a token was required.
    UnexpectedEnd,
    /// A type name was required after `:` or `->`.
    ExpectedType,
    /// An assignment statement without an assignment operator.
    ExpectedAssignmentOperator,
    /// The left-hand side of an assignment is not an identifier, index, or
    /// field access.
    InvalidAssignmentTarget,
    /// Call syntax applied to something that is not a plain name.
    InvalidFunctionCall,
}

/// The name of a token kind, as written in parse error messages.
pub open spec fn kind_name(k: TokenKind) -> Seq<char> {
    match k {
        TokenKind::Integer => "integer literal"@,
        TokenKind::Float => "float literal"@,
        TokenKind::String => "string literal"@,
        TokenKind::Boolean => "boolean literal"@,
        TokenKind::Identifier => "identifier"@,
        TokenKind::Let => "'let'"@,
        TokenKind::Const => "'const'"@,
        TokenKind::Fn => "'fn'"@,
        TokenKind::Return => "'return'"@,
        TokenKind::If => "'if'"@,
        TokenKind::Else => "'else'"@,
        TokenKind::For => "'for'"@,
        TokenKind::While => "'while'"@,
        TokenKind::In => "'in'"@,
        TokenKind::Try => "'try'"@,
        TokenKind::Catch => "'catch'"@,
        TokenKind::Match => "'match'"@,
        TokenKind::True => "'true'"@,
        TokenKind::False => "'false'"@,
        TokenKind::Nil => "'nil'"@,
        TokenKind::Is => "'is'"@,
        TokenKind::Plus => "'+'"@,
        TokenKind::Minus => "'-'"@,
        TokenKind::Multiply => "'*'"@,
        TokenKind::Divide => "'/'"@,
        TokenKind::Modulo => "'%'"@,
        TokenKind::Power => "'**'"@,
        TokenKind::Assign => "'='"@,
        TokenKind::ColonAssign => "':='"@,
        TokenKind::PlusAssign => "'+='"@,
        TokenKind::MinusAssign => "'-='"@,
        TokenKind::Equal => "'=='"@,
        TokenKind::NotEqual => "'!='"@,
        TokenKind::Less => "'<'"@,
        TokenKind::LessEqual => "'<='"@,
        TokenKind::Greater => "'>'"@,
        TokenKind::GreaterEqual => "'>='"@,
        TokenKind::And => "'&&'"@,
        TokenKind::Or => "'||'"@,
        TokenKind::Not => "'!'"@,
        TokenKind::BitwiseAnd => "'&'"@,
        TokenKind::BitwiseOr => "'|'"@,
        TokenKind::BitwiseXor => "'^'"@,
        TokenKind::BitwiseNot => "'~'"@,
        TokenKind::LeftShift => "'<<'"@,
        TokenKind::RightShift => "'>>'"@,
        TokenKind::LeftParen => "'('"@,
        TokenKind::RightParen => "')'"@,
        TokenKind::LeftBrace => "'{'"@,
        TokenKind::RightBrace => "'}'"@,
        TokenKind::LeftBracket => "'['"@,
        TokenKind::RightBracket => "']'"@,
        TokenKind::Comma => "','"@,
        TokenKind::Semicolon => "';'"@,
        TokenKind::Colon => "':'"@,
        TokenKind::Dot => "'.'"@,
        TokenKind::Arrow => "'->'"@,
        TokenKind::Pipeline => "'|>'"@,
        TokenKind::InterpolationStart => "'${'"@,
        TokenKind::InterpolationEnd => "interpolation end"@,
        TokenKind::Command => "command literal"@,
        TokenKind::Comment => "comment"@,
        TokenKind::Newline => "newline"@,
        TokenKind::EOF => "end of input"@,
        TokenKind::Error => "invalid token"@,
    }
}

fn kind_name_exec(k: TokenKind) -> (r: &'static str)
    ensures
        r@ == kind_name(k),
{
    match k {
        TokenKind::Integer => "integer literal",
        TokenKind::Float => "float literal",
        TokenKind::String => "string literal",
        TokenKind::Boolean => "boolean literal",
        TokenKind::Identifier => "identifier",
        TokenKind::Let => "'let'",
        TokenKind::Const => "'const'",
        TokenKind::Fn => "'fn'",
        TokenKind::Return => "'return'",
        TokenKind::If => "'if'",
        TokenKind::Else => "'else'",
        TokenKind::For => "'for'",
        TokenKind::While => "'while'",
        TokenKind::In => "'in'",
        TokenKind::Try => "'try'",
        TokenKind::Catch => "'catch'",
        TokenKind::Match => "'match'",
        TokenKind::True => "'true'",
        TokenKind::False => "'false'",
        TokenKind::Nil => "'nil'",
        TokenKind::Is => "'is'",
        TokenKind::Plus => "'+'",
        TokenKind::Minus => "'-'",
        TokenKind::Multiply => "'*'",
        TokenKind::Divide => "'/'",
        TokenKind::Modulo => "'%'",
        TokenKind::Power => "'**'",
        TokenKind::Assign => "'='",
        TokenKind::ColonAssign => "':='",
        TokenKind::PlusAssign => "'+='",
        TokenKind::MinusAssign => "'-='",
        TokenKind::Equal => "'=='",
        TokenKind::NotEqual => "'!='",
        TokenKind::Less => "'<'",
        TokenKind::LessEqual => "'<='",
        TokenKind::Greater => "'>'",
        TokenKind::GreaterEqual => "'>='",
        TokenKind::And => "'&&'",
        TokenKind::Or => "'||'",
        TokenKind::Not => "'!'",
        TokenKind::BitwiseAnd => "'&'",
        TokenKind::BitwiseOr => "'|'",
        TokenKind::BitwiseXor => "'^'",
        TokenKind::BitwiseNot => "'~'",
        TokenKind::LeftShift => "'<<'",
        TokenKind::RightShift => "'>>'",
        TokenKind::LeftParen => "'('",
        TokenKind::RightParen => "')'",
        TokenKind::LeftBrace => "'{'",
        TokenKind::RightBrace => "'}'",
        TokenKind::LeftBracket => "'['",
        TokenKind::RightBracket => "']'",
        TokenKind::Comma => "','",
        TokenKind::Semicolon => "';'",
        TokenKind::Colon => "':'",
        TokenKind::Dot => "'.'",
        TokenKind::Arrow => "'->'",
        TokenKind::Pipeline => "'|>'",
        TokenKind::InterpolationStart => "'${'",
        TokenKind::InterpolationEnd => "interpolation end",
        TokenKind::Command => "command literal",
        TokenKind::Comment => "comment",
        TokenKind::Newline => "newline",
        TokenKind::EOF => "end of input",
        TokenKind::Error => "invalid token",
    }
}

/// The text of a parse failure.
pub open spec fn parse_err_message(e: ParseError) -> Seq<char> {
    match e {
        ParseError::UnexpectedToken(k) => "Unexpected token: "@ + kind_name(k),
        ParseError::ExpectedToken { expected, found } => "Expected "@ + kind_name(expected)
            + ", found "@ + kind_name(found),
        ParseError::ExpectedIdentifier { found } => "Expected identifier, found "@ + kind_name(
            found,
        ),
        ParseError::UnexpectedEnd => "Unexpected end of input"@,
        ParseError::ExpectedType => "Expected type"@,
        ParseError::ExpectedAssignmentOperator => "Expected assignment operator"@,
        ParseError::InvalidAssignmentTarget => "Invalid assignment target"@,
        ParseError::InvalidFunctionCall => "Invalid function call"@,
    }
}

impl ParseError {
    /// Renders this failure as text.
    pub fn message(&self) -> (r: String)
        ensures
            r@ == parse_err_message(*self),
    {
        let r = match self {
            ParseError::UnexpectedToken(k) => String::from_str("Unexpected token: ").concat(
                kind_name_exec(*k),
            ),
            ParseError::ExpectedToken { expected, found } => String::from_str("Expected ").concat(
                kind_name_exec(*expected),
            ).concat(", found ").concat(kind_name_exec(*found)),
            ParseError::ExpectedIdentifier { found } => String::from_str(
                "Expected identifier, found ",
            ).concat(kind_name_exec(*found)),
            ParseError::UnexpectedEnd => String::from_str("Unexpected end of input"),
            ParseError::ExpectedType => String::from_str("Expected type"),
            ParseError::ExpectedAssignmentOperator => String::from_str(
                "Expected assignment operator",
            ),
            ParseError::InvalidAssignmentTarget => String::from_str("Invalid assignment target"),
            ParseError::InvalidFunctionCall => String::from_str("Invalid function call"),
        };
        proof {
            assert(r@ =~= parse_err_message(*self));
        }
        r
    }
}

} // verus!
