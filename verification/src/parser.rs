//! The recursive-descent parser.
//!
//! One program is built per token list, with a standard precedence ladder for
//! expressions and keyword-driven statement dispatch. Statements that start
//! with no keyword are disambiguated by bounded speculative lookahead: the
//! parser tentatively reads an assignment target, peeks, and always restores
//! the cursor before committing — the speculative helpers are proved to leave
//! the parser exactly as they found it. The first structurally invalid
//! construct aborts the parse, and nothing of a failed parse is kept.
//!
//! The grammar itself is written down as specification relations:
//! [`program_matches`] relates a token list to the statements built from it,
//! through [`stmt_matches`], the precedence ladder ([`ladder_matches`], with
//! maximal chains, so precedence and left-associativity are part of the
//! stated relation), [`postfix_chain`] and [`primary_matches`]. Every parsing
//! function is proved to return nodes these relations describe at the token
//! range it consumed, and a token list with nothing but separators is proved
//! to parse successfully to the empty program. Each function also preserves
//! the parser's well-formedness, never moves the cursor backwards, and on
//! success consumes at least one token wherever the grammar guarantees it;
//! this is what makes the parse terminate.

use crate::ast::{
    AssignmentOperator, AssignmentTarget, BinaryOperator, CatchClause, Expr, MatchArm, Parameter,
    Pattern, Program, Stmt, Type, UnaryOperator,
};
use crate::errors::ParseError;
use crate::strutil::str_eq;
use crate::token::{spec_kind, Token, TokenKind, TokenType};
use std::rc::Rc;
use vstd::prelude::*;
use vstd::string::StringExecFns;

verus! {

/// The size of an expression node: the structural measure the grammar
/// relations descend along at a fixed position.
pub open spec fn node_size(e: Expr) -> nat
    decreases e,
{
    match e {
        Expr::Binary { left, right, .. } => 1 + node_size(*left) + node_size(*right),
        Expr::Unary { operand, .. } => 1 + node_size(*operand),
        Expr::Call { args, .. } => 1 + nodes_size(args@),
        Expr::MethodCall { object, args, .. } => 1 + node_size(*object) + nodes_size(args@),
        Expr::Array(elems) => 1 + nodes_size(elems@),
        Expr::MapLit(pairs) => 1 + pair_nodes_size(pairs@),
        Expr::Index { object, index } => 1 + node_size(*object) + node_size(*index),
        Expr::FieldAccess { object, .. } => 1 + node_size(*object),
        _ => 1,
    }
}

pub open spec fn nodes_size(es: Seq<Expr>) -> nat
    decreases es,
{
    if es.len() == 0 {
        0
    } else {
        1 + node_size(es.first()) + nodes_size(es.drop_first())
    }
}

pub open spec fn pair_nodes_size(ps: Seq<(Expr, Expr)>) -> nat
    decreases ps,
{
    if ps.len() == 0 {
        0
    } else {
        1 + node_size(ps.first().0) + node_size(ps.first().1) + pair_nodes_size(ps.drop_first())
    }
}

/// A position inside the token list; the grammar relations quantify their
/// internal positions over these.
pub open spec fn bounded_pos(toks: Seq<Token>, p: int) -> bool {
    0 <= p <= toks.len()
}

/// The token at `p` has this kind.
pub open spec fn at_kind(toks: Seq<Token>, p: int, k: TokenKind) -> bool {
    0 <= p < toks.len() && spec_kind(&toks[p].token_type) == k
}

/// A token the statement layer skips: a newline or a comment.
pub open spec fn sep_at(toks: Seq<Token>, p: int) -> bool {
    at_kind(toks, p, TokenKind::Newline) || at_kind(toks, p, TokenKind::Comment)
}

/// The first position at or after `p` that is not a newline or comment.
pub open spec fn skip_seps(toks: Seq<Token>, p: int) -> int
    decreases toks.len() - p,
{
    if p < 0 || p >= toks.len() {
        p
    } else if sep_at(toks, p) {
        skip_seps(toks, p + 1)
    } else {
        p
    }
}

/// Past the token list, or at its `EOF` token.
pub open spec fn at_input_end(toks: Seq<Token>, p: int) -> bool {
    p >= toks.len() || (0 <= p && spec_kind(&toks[p].token_type) is EOF)
}

/// The binary operator that continues a chain at precedence `level`:
/// `0` is `||`, then `&&`, equality, comparison, terms, and `5` is factors.
pub open spec fn level_op(level: int, toks: Seq<Token>, p: int) -> Option<BinaryOperator> {
    if p < 0 || p >= toks.len() {
        Option::None
    } else {
        let k = spec_kind(&toks[p].token_type);
        if level == 0 {
            if k is Or {
                Option::Some(BinaryOperator::Or)
            } else {
                Option::None
            }
        } else if level == 1 {
            if k is And {
                Option::Some(BinaryOperator::And)
            } else {
                Option::None
            }
        } else if level == 2 {
            if k is Equal {
                Option::Some(BinaryOperator::Equal)
            } else if k is NotEqual {
                Option::Some(BinaryOperator::NotEqual)
            } else {
                Option::None
            }
        } else if level == 3 {
            if k is Less {
                Option::Some(BinaryOperator::Less)
            } else if k is LessEqual {
                Option::Some(BinaryOperator::LessEqual)
            } else if k is Greater {
                Option::Some(BinaryOperator::Greater)
            } else if k is GreaterEqual {
                Option::Some(BinaryOperator::GreaterEqual)
            } else {
                Option::None
            }
        } else if level == 4 {
            if k is Plus {
                Option::Some(BinaryOperator::Add)
            } else if k is Minus {
                Option::Some(BinaryOperator::Subtract)
            } else {
                Option::None
            }
        } else {
            if k is Multiply {
                Option::Some(BinaryOperator::Multiply)
            } else if k is Divide {
                Option::Some(BinaryOperator::Divide)
            } else if k is Modulo {
                Option::Some(BinaryOperator::Modulo)
            } else if k is Power {
                Option::Some(BinaryOperator::Power)
            } else {
                Option::None
            }
        }
    }
}

/// `level` clamped to the ladder's range.
pub open spec fn clamp_level(level: int) -> int {
    if 0 <= level && level < 6 {
        level
    } else {
        5
    }
}

/// An expression at precedence `level` fills `toks[p..next)` and is maximal:
/// the token at `next` does not continue the chain. Binary operators at one
/// level are left-associative, which is what the chain shape states.
pub open spec fn ladder_matches(toks: Seq<Token>, p: int, e: Expr, next: int, level: int) -> bool
    decreases toks.len() - p, 20 - 2 * clamp_level(level), node_size(e),
{
    ladder_chain(toks, p, e, next, level) && level_op(clamp_level(level), toks, next) is None
}

/// A left-leaning chain of `level` operators over operands of the next
/// tighter level.
pub open spec fn ladder_chain(toks: Seq<Token>, p: int, e: Expr, next: int, level: int) -> bool
    decreases toks.len() - p, 19 - 2 * clamp_level(level), node_size(e),
{
    let lv = clamp_level(level);
    ||| (if lv == 5 {
        unary_matches(toks, p, e, next)
    } else {
        ladder_matches(toks, p, e, next, lv + 1)
    })
    ||| (e matches Expr::Binary { left, operator, right } && (exists|mid: int|
        p <= mid && ladder_chain(toks, p, *left, mid, lv) && #[trigger] level_op(lv, toks, mid)
            == Option::Some(operator) && (if lv == 5 {
            unary_matches(toks, mid + 1, *right, next)
        } else {
            ladder_matches(toks, mid + 1, *right, next, lv + 1)
        })))
}

/// A prefix `! - ~` chain over a postfix expression.
pub open spec fn unary_matches(toks: Seq<Token>, p: int, e: Expr, next: int) -> bool
    decreases toks.len() - p, 8int, node_size(e),
{
    if at_kind(toks, p, TokenKind::Not) {
        e matches Expr::Unary { operator, operand } && operator == UnaryOperator::Not
            && unary_matches(toks, p + 1, *operand, next)
    } else if at_kind(toks, p, TokenKind::Minus) {
        e matches Expr::Unary { operator, operand } && operator == UnaryOperator::Minus
            && unary_matches(toks, p + 1, *operand, next)
    } else if at_kind(toks, p, TokenKind::BitwiseNot) {
        e matches Expr::Unary { operator, operand } && operator == UnaryOperator::BitwiseNot
            && unary_matches(toks, p + 1, *operand, next)
    } else {
        postfix_matches(toks, p, e, next)
    }
}

/// A maximal postfix expression: the token at `next` opens no further
/// postfix form.
pub open spec fn postfix_matches(toks: Seq<Token>, p: int, e: Expr, next: int) -> bool
    decreases toks.len() - p, 7int, node_size(e),
{
    postfix_chain(toks, p, e, next) && !at_kind(toks, next, TokenKind::LeftParen) && !at_kind(
        toks,
        next,
        TokenKind::LeftBracket,
    ) && !at_kind(toks, next, TokenKind::Dot)
}

/// A primary expression extended by calls, indexing, field access and method
/// calls, left to right. A call applies only to a plain name, so it stands
/// where the name stood.
pub open spec fn postfix_chain(toks: Seq<Token>, p: int, e: Expr, next: int) -> bool
    decreases toks.len() - p, 6int, node_size(e),
{
    ||| primary_matches(toks, p, e, next)
    ||| (e matches Expr::Call { name, args } && (exists|obj: Expr, mid: int|
        p <= mid && #[trigger] primary_matches(toks, p, obj, mid) && (obj matches
        Expr::Identifier(s) && name@ == s@) && at_kind(toks, mid, TokenKind::LeftParen)
            && paren_args_match(toks, mid + 1, args@, next)))
    ||| (e matches Expr::Index { object, index } && (exists|mid: int, m2: int|
        p <= mid && postfix_chain(toks, p, *object, mid) && #[trigger] at_kind(
            toks,
            mid,
            TokenKind::LeftBracket,
        ) && p <= m2 && expr_matches(toks, mid + 1, *index, m2) && #[trigger] at_kind(
            toks,
            m2,
            TokenKind::RightBracket,
        ) && next == m2 + 1))
    ||| (e matches Expr::FieldAccess { object, field } && (exists|mid: int|
        p <= mid && postfix_chain(toks, p, *object, mid) && #[trigger] at_kind(
            toks,
            mid,
            TokenKind::Dot,
        ) && (toks[mid + 1].token_type matches TokenType::Identifier(s) && mid + 1 < toks.len()
            && field@ == s@) && next == mid + 2 && !at_kind(toks, next, TokenKind::LeftParen)))
    ||| (e matches Expr::MethodCall { object, method, args } && (exists|mid: int|
        p <= mid && postfix_chain(toks, p, *object, mid) && #[trigger] at_kind(
            toks,
            mid,
            TokenKind::Dot,
        ) && (toks[mid + 1].token_type matches TokenType::Identifier(s) && mid + 1 < toks.len()
            && method@ == s@) && at_kind(toks, mid + 2, TokenKind::LeftParen) && paren_args_match(
            toks,
            mid + 3,
            args@,
            next,
        )))
}

/// The arguments between `(` and `)`, `p` just after the `(`; `next` is past
/// the `)`.
pub open spec fn paren_args_match(toks: Seq<Token>, p: int, args: Seq<Expr>, next: int) -> bool
    decreases toks.len() - p, 24int, args.len(),
{
    if at_kind(toks, p, TokenKind::RightParen) {
        args.len() == 0 && next == p + 1
    } else {
        args.len() > 0 && (exists|m: int|
            p <= m && args_chain(toks, p, args, m) && #[trigger] at_kind(
                toks,
                m,
                TokenKind::RightParen,
            ) && next == m + 1)
    }
}

/// A non-empty comma-separated expression list filling `toks[p..next)`.
pub open spec fn args_chain(toks: Seq<Token>, p: int, args: Seq<Expr>, next: int) -> bool
    decreases toks.len() - p, 23int, args.len(),
{
    if args.len() == 0 {
        false
    } else if args.len() == 1 {
        expr_matches(toks, p, args.first(), next)
    } else {
        exists|m: int|
            p <= m && args_chain(toks, p, args.drop_last(), m) && #[trigger] at_kind(
                toks,
                m,
                TokenKind::Comma,
            ) && expr_matches(toks, m + 1, args.last(), next)
    }
}

/// A non-empty comma-separated `key: value` list filling `toks[p..next)`.
pub open spec fn pairs_chain(toks: Seq<Token>, p: int, pairs: Seq<(Expr, Expr)>, next: int) -> bool
    decreases toks.len() - p, 23int, pairs.len(),
{
    if pairs.len() == 0 {
        false
    } else if pairs.len() == 1 {
        exists|m: int|
            p <= m && expr_matches(toks, p, pairs.first().0, m) && #[trigger] at_kind(
                toks,
                m,
                TokenKind::Colon,
            ) && expr_matches(toks, m + 1, pairs.first().1, next)
    } else {
        exists|m: int, m2: int|
            p <= m && pairs_chain(toks, p, pairs.drop_last(), m) && #[trigger] at_kind(
                toks,
                m,
                TokenKind::Comma,
            ) && p <= m2 && expr_matches(toks, m + 1, pairs.last().0, m2) && #[trigger] at_kind(
                toks,
                m2,
                TokenKind::Colon,
            ) && expr_matches(toks, m2 + 1, pairs.last().1, next)
    }
}

/// A primary expression: a literal, a name, a parenthesized expression
/// (which stands for its inner node), an array or map literal, or a raw
/// command capture.
pub open spec fn primary_matches(toks: Seq<Token>, p: int, e: Expr, next: int) -> bool
    decreases toks.len() - p, 3int, node_size(e),
{
    if p < 0 || p >= toks.len() {
        false
    } else {
        match toks[p].token_type {
            TokenType::Integer(n) => e == Expr::Integer(n) && next == p + 1,
            TokenType::Float(txt) => e matches Expr::Float(t) && t@ == txt@ && next == p + 1,
            TokenType::String(st) => e matches Expr::String(t) && t@ == st@ && next == p + 1,
            TokenType::Boolean(b) => e == Expr::Boolean(b) && next == p + 1,
            TokenType::True => e == Expr::Boolean(true) && next == p + 1,
            TokenType::False => e == Expr::Boolean(false) && next == p + 1,
            TokenType::Nil => e == Expr::Nil && next == p + 1,
            TokenType::Identifier(nm) => e matches Expr::Identifier(t) && t@ == nm@ && next == p
                + 1,
            TokenType::Command(cmd) => e matches Expr::Command(t) && t@ == cmd@ && next == p + 1,
            TokenType::LeftParen => exists|m: int|
                p < m && expr_matches(toks, p + 1, e, m) && #[trigger] at_kind(
                    toks,
                    m,
                    TokenKind::RightParen,
                ) && next == m + 1,
            TokenType::LeftBracket => e matches Expr::Array(elems) && (if at_kind(
                toks,
                p + 1,
                TokenKind::RightBracket,
            ) {
                elems@.len() == 0 && next == p + 2
            } else {
                elems@.len() > 0 && (exists|m: int|
                    p <= m && args_chain(toks, p + 1, elems@, m) && #[trigger] at_kind(
                        toks,
                        m,
                        TokenKind::RightBracket,
                    ) && next == m + 1)
            }),
            TokenType::LeftBrace => e matches Expr::MapLit(pairs) && (if at_kind(
                toks,
                p + 1,
                TokenKind::RightBrace,
            ) {
                pairs@.len() == 0 && next == p + 2
            } else {
                pairs@.len() > 0 && (exists|m: int|
                    p <= m && pairs_chain(toks, p + 1, pairs@, m) && #[trigger] at_kind(
                        toks,
                        m,
                        TokenKind::RightBrace,
                    ) && next == m + 1)
            }),
            _ => false,
        }
    }
}

/// A full expression: the bottom of the precedence ladder.
pub open spec fn expr_matches(toks: Seq<Token>, p: int, e: Expr, next: int) -> bool
    decreases toks.len() - p, 21int, node_size(e),
{
    ladder_matches(toks, p, e, next, 0)
}

/// The assignment operator written at `p`, if any.
pub open spec fn assign_op_at(toks: Seq<Token>, p: int) -> Option<AssignmentOperator> {
    if at_kind(toks, p, TokenKind::Assign) {
        Option::Some(AssignmentOperator::Assign)
    } else if at_kind(toks, p, TokenKind::PlusAssign) {
        Option::Some(AssignmentOperator::AddAssign)
    } else if at_kind(toks, p, TokenKind::MinusAssign) {
        Option::Some(AssignmentOperator::SubtractAssign)
    } else {
        Option::None
    }
}

/// The type a one-token annotation names.
pub open spec fn type_corresponds(w: Seq<char>, t: Type) -> bool {
    if w == "int"@ {
        t is Int
    } else if w == "float"@ {
        t is Float
    } else if w == "string"@ {
        t is String
    } else if w == "bool"@ {
        t is Bool
    } else if w == "any"@ {
        t is Any
    } else {
        t matches Type::Custom(nm) && nm@ == w
    }
}

/// A type annotation: one identifier token naming the type.
pub open spec fn type_matches(toks: Seq<Token>, p: int, t: Type) -> bool {
    0 <= p < toks.len() && (toks[p].token_type matches TokenType::Identifier(s) && type_corresponds(
        s@,
        t,
    ))
}

/// An assignment's left-hand side: a maximal postfix expression of target
/// shape, carried over structurally.
pub open spec fn target_matches(toks: Seq<Token>, p: int, t: AssignmentTarget, next: int) -> bool
    decreases toks.len() - p, 8int, 0int,
{
    match t {
        AssignmentTarget::Identifier(nm) => exists|e: Expr|
            #[trigger] postfix_matches(toks, p, e, next) && e == Expr::Identifier(nm),
        AssignmentTarget::Index { object, index } => exists|e: Expr|
            #[trigger] postfix_matches(toks, p, e, next) && e == Expr::Index { object, index },
        AssignmentTarget::FieldAccess { object, field } => exists|e: Expr|
            #[trigger] postfix_matches(toks, p, e, next) && e == Expr::FieldAccess {
                object,
                field,
            },
    }
}

/// A match-arm pattern: the literal identifier `_` is the wildcard, any
/// other identifier binds, anything else is a literal expression.
pub open spec fn pattern_matches(toks: Seq<Token>, p: int, pat: Pattern, next: int) -> bool
    decreases toks.len() - p, 22int, 0int,
{
    if 0 <= p < toks.len() && spec_kind(&toks[p].token_type) is Identifier {
        toks[p].token_type matches TokenType::Identifier(s) && next == p + 1 && (if s@ == "_"@ {
            pat is Wildcard
        } else {
            pat matches Pattern::Identifier(nm) && nm@ == s@
        })
    } else {
        pat matches Pattern::Literal(e) && expr_matches(toks, p, e, next)
    }
}

/// One parameter: a name with its optional `: type` annotation.
pub open spec fn param_matches(toks: Seq<Token>, p: int, param: Parameter, next: int) -> bool {
    0 <= p < toks.len() && (toks[p].token_type matches TokenType::Identifier(s) && param.name@
        == s@) && (if at_kind(toks, p + 1, TokenKind::Colon) {
        param.type_annotation matches Some(t) && type_matches(toks, p + 2, t) && next == p + 3
    } else {
        param.type_annotation is None && next == p + 1
    })
}

/// A non-empty comma-separated parameter list filling `toks[p..next)`.
pub open spec fn params_chain(toks: Seq<Token>, p: int, params: Seq<Parameter>, next: int) -> bool
    decreases params,
{
    if params.len() == 0 {
        false
    } else if params.len() == 1 {
        param_matches(toks, p, params.first(), next)
    } else {
        exists|m: int|
            p <= m && params_chain(toks, p, params.drop_last(), m) && #[trigger] at_kind(
                toks,
                m,
                TokenKind::Comma,
            ) && param_matches(toks, m + 1, params.last(), next)
    }
}

/// The statements of a brace-delimited block, `p` just after the `{`;
/// `next` is past the closing `}`. Newlines and comments between statements
/// are skipped.
pub open spec fn block_matches(toks: Seq<Token>, p: int, stmts: Seq<Stmt>, next: int) -> bool
    decreases toks.len() - p, 59int, 0int,
{
    exists|m: int|
        p <= m && #[trigger] bounded_pos(toks, m) && stmt_seq_matches(toks, p, stmts, m)
            && at_kind(toks, skip_seps(toks, m), TokenKind::RightBrace) && next == skip_seps(
            toks,
            m,
        ) + 1
}

/// Statements in order from `p`, each parsed where the separators after the
/// one before it end; `next` is where the last statement ends.
pub open spec fn stmt_seq_matches(toks: Seq<Token>, p: int, stmts: Seq<Stmt>, next: int) -> bool
    decreases toks.len() - p, 58int, stmts.len(),
{
    if stmts.len() == 0 {
        next == p
    } else {
        exists|m: int, q: int|
            #![trigger bounded_pos(toks, m), bounded_pos(toks, q)]
            p <= m <= toks.len() && bounded_pos(toks, m) && stmt_seq_matches(
                toks,
                p,
                stmts.drop_last(),
                m,
            ) && q == skip_seps(toks, m) && p <= q <= toks.len() && bounded_pos(toks, q)
                && stmt_matches(toks, q, stmts.last(), next)
    }
}

/// A whole program from `p`: its statements, then only separators up to the
/// end of input.
pub open spec fn program_matches(toks: Seq<Token>, p: int, stmts: Seq<Stmt>) -> bool
    decreases toks.len() - p, 60int, 0int,
{
    exists|m: int|
        p <= m && #[trigger] stmt_seq_matches(toks, p, stmts, m) && at_input_end(
            toks,
            skip_seps(toks, m),
        )
}

/// `name [: type] is expr` after the `let` or `const` keyword; the
/// statement ends after the separators that follow the initializer.
pub open spec fn declaration_tail_matches(
    toks: Seq<Token>,
    p: int,
    name: String,
    type_annotation: Option<Type>,
    value: Expr,
    next: int,
) -> bool
    decreases toks.len() - p, 45int, 0int,
{
    (0 <= p < toks.len() && (toks[p].token_type matches TokenType::Identifier(s) && name@ == s@))
        && {
        let m1 = if at_kind(toks, p + 1, TokenKind::Colon) {
            p + 3
        } else {
            p + 1
        };
        &&& (if at_kind(toks, p + 1, TokenKind::Colon) {
            type_annotation matches Some(t) && type_matches(toks, p + 2, t)
        } else {
            type_annotation is None
        })
        &&& at_kind(toks, m1, TokenKind::Is)
        &&& (exists|m2: int|
            p <= m2 && expr_matches(toks, m1 + 1, value, m2) && next == #[trigger] skip_seps(
                toks,
                m2,
            ))
    }
}

/// `name is expr`: the declaration form without a keyword.
pub open spec fn is_form_matches(toks: Seq<Token>, p: int, s: Stmt, next: int) -> bool
    decreases toks.len() - p, 46int, 0int,
{
    s matches Stmt::Let { name, type_annotation, value } && type_annotation is None && (0 <= p
        < toks.len() && (toks[p].token_type matches TokenType::Identifier(nm) && name@ == nm@))
        && at_kind(toks, p + 1, TokenKind::Is) && (exists|m: int|
        p <= m && expr_matches(toks, p + 2, value, m) && next == #[trigger] skip_seps(toks, m))
}

/// `target (= | += | -=) expr`, ending after the trailing separators.
pub open spec fn assignment_matches(toks: Seq<Token>, p: int, s: Stmt, next: int) -> bool
    decreases toks.len() - p, 47int, 0int,
{
    s matches Stmt::Assignment { target, operator, value } && (exists|m: int, m2: int|
        p <= m && #[trigger] target_matches(toks, p, target, m) && assign_op_at(toks, m)
            == Option::Some(operator) && p <= m2 && expr_matches(toks, m + 1, value, m2) && next
            == #[trigger] skip_seps(toks, m2))
}

/// `name(params) [-> type] { body }` after the `fn` keyword. Annotations
/// are recorded only; nothing reads them later.
pub open spec fn fn_tail_matches(toks: Seq<Token>, p: int, s: Stmt, next: int) -> bool
    decreases toks.len() - p, 45int, 0int,
{
    s matches Stmt::Function { name, parameters, return_type, body } && (0 <= p < toks.len() && (
    toks[p].token_type matches TokenType::Identifier(nm) && name@ == nm@)) && at_kind(
        toks,
        p + 1,
        TokenKind::LeftParen,
    ) && (exists|after_params: int|
        #![trigger bounded_pos(toks, after_params)]
        p <= after_params && bounded_pos(toks, after_params) && (if at_kind(toks, p + 2, TokenKind::RightParen) {
            parameters@.len() == 0 && after_params == p + 3
        } else {
            parameters@.len() > 0 && (exists|m: int|
                p <= m && params_chain(toks, p + 2, parameters@, m) && #[trigger] at_kind(
                    toks,
                    m,
                    TokenKind::RightParen,
                ) && after_params == m + 1)
        }) && {
            let after_rt = if at_kind(toks, after_params, TokenKind::Arrow) {
                after_params + 2
            } else {
                after_params
            };
            &&& (if at_kind(toks, after_params, TokenKind::Arrow) {
                return_type matches Some(t) && type_matches(toks, after_params + 1, t)
            } else {
                return_type is None
            })
            &&& at_kind(toks, after_rt, TokenKind::LeftBrace)
            &&& block_matches(toks, after_rt + 1, body@, next)
        })
}

/// `cond { … } [else { … }]` after the `if` keyword; no separators are
/// consumed after the blocks.
pub open spec fn if_tail_matches(toks: Seq<Token>, p: int, s: Stmt, next: int) -> bool
    decreases toks.len() - p, 45int, 0int,
{
    s matches Stmt::If { condition, then_block, else_block } && (exists|m: int, m2: int|
        #![trigger bounded_pos(toks, m), bounded_pos(toks, m2)]
        p <= m && bounded_pos(toks, m) && bounded_pos(toks, m2) && expr_matches(toks, p, condition, m) && at_kind(
            toks,
            m,
            TokenKind::LeftBrace,
        ) && p <= m2 && block_matches(toks, m + 1, then_block@, m2) && (if at_kind(
            toks,
            m2,
            TokenKind::Else,
        ) {
            at_kind(toks, m2 + 1, TokenKind::LeftBrace) && (else_block matches Some(els)
                && block_matches(toks, m2 + 2, els@, next))
        } else {
            else_block is None && next == m2
        }))
}

/// `name in iterable { body }` after the `for` keyword.
pub open spec fn for_tail_matches(toks: Seq<Token>, p: int, s: Stmt, next: int) -> bool
    decreases toks.len() - p, 45int, 0int,
{
    s matches Stmt::For { variable, iterable, body } && (0 <= p < toks.len() && (
    toks[p].token_type matches TokenType::Identifier(nm) && variable@ == nm@)) && at_kind(
        toks,
        p + 1,
        TokenKind::In,
    ) && (exists|m: int|
        p <= m && expr_matches(toks, p + 2, iterable, m) && #[trigger] at_kind(
            toks,
            m,
            TokenKind::LeftBrace,
        ) && block_matches(toks, m + 1, body@, next))
}

/// `cond { body }` after the `while` keyword.
pub open spec fn while_tail_matches(toks: Seq<Token>, p: int, s: Stmt, next: int) -> bool
    decreases toks.len() - p, 45int, 0int,
{
    s matches Stmt::While { condition, body } && (exists|m: int|
        p <= m && expr_matches(toks, p, condition, m) && #[trigger] at_kind(
            toks,
            m,
            TokenKind::LeftBrace,
        ) && block_matches(toks, m + 1, body@, next))
}

/// `[expr]` after the `return` keyword: no value exactly when a newline or
/// the end of input follows directly.
pub open spec fn return_tail_matches(toks: Seq<Token>, p: int, s: Stmt, next: int) -> bool
    decreases toks.len() - p, 45int, 0int,
{
    s matches Stmt::Return(value) && (if at_kind(toks, p, TokenKind::Newline) || at_input_end(
        toks,
        p,
    ) {
        value is None && next == skip_seps(toks, p)
    } else {
        value matches Some(e) && (exists|m: int|
            p <= m && expr_matches(toks, p, e, m) && next == #[trigger] skip_seps(toks, m))
    })
}

/// One `catch [Type] [as name] { … }` clause.
pub open spec fn catch_clause_matches(toks: Seq<Token>, p: int, c: CatchClause, next: int) -> bool
    decreases toks.len() - p, 45int, 0int,
{
    at_kind(toks, p, TokenKind::Catch) && {
        let has_type = p + 1 < toks.len() && (toks[p + 1].token_type matches
            TokenType::Identifier(s) && s@ != "as"@);
        let q2 = if has_type {
            p + 2
        } else {
            p + 1
        };
        &&& (if has_type {
            c.exception_type matches Some(t) && (toks[p + 1].token_type matches
                TokenType::Identifier(s) && t@ == s@)
        } else {
            c.exception_type is None
        })
        &&& {
            let has_var = q2 < toks.len() && (toks[q2].token_type matches TokenType::Identifier(
                s,
            ) && s@ == "as"@);
            let q3 = if has_var {
                q2 + 2
            } else {
                q2
            };
            &&& (if has_var {
                c.variable matches Some(v) && q2 + 1 < toks.len() && (toks[q2
                    + 1].token_type matches TokenType::Identifier(s2) && v@ == s2@)
            } else {
                c.variable is None
            })
            &&& at_kind(toks, q3, TokenKind::LeftBrace)
            &&& #[trigger] block_matches(toks, q3 + 1, c.body@, next)
        }
    }
}

/// Zero or more catch clauses in sequence.
pub open spec fn catches_chain(toks: Seq<Token>, p: int, cs: Seq<CatchClause>, next: int) -> bool
    decreases toks.len() - p, 46int, cs.len(),
{
    if cs.len() == 0 {
        next == p
    } else {
        exists|m: int|
            p <= m <= toks.len() && catches_chain(toks, p, cs.drop_last(), m) && #[trigger] at_kind(
                toks,
                m,
                TokenKind::Catch,
            ) && catch_clause_matches(toks, m, cs.last(), next)
    }
}

/// `{ body } catch…*` after the `try` keyword; the clause list is maximal.
pub open spec fn try_tail_matches(toks: Seq<Token>, p: int, s: Stmt, next: int) -> bool
    decreases toks.len() - p, 47int, 0int,
{
    s matches Stmt::Try { body, catch_clauses } && at_kind(toks, p, TokenKind::LeftBrace) && (
    exists|m: int|
        p <= m <= toks.len() && #[trigger] bounded_pos(toks, m) && block_matches(
            toks,
            p + 1,
            body@,
            m,
        ) && catches_chain(toks, m, catch_clauses@, next) && !at_kind(
            toks,
            next,
            TokenKind::Catch,
        ))
}

/// One `pattern -> { body }` arm.
pub open spec fn arm_matches(toks: Seq<Token>, p: int, arm: MatchArm, next: int) -> bool
    decreases toks.len() - p, 45int, 0int,
{
    exists|m: int|
        p <= m && #[trigger] pattern_matches(toks, p, arm.pattern, m) && at_kind(
            toks,
            m,
            TokenKind::Arrow,
        ) && at_kind(toks, m + 1, TokenKind::LeftBrace) && block_matches(toks, m + 2, arm.body@, next)
}

/// Zero or more match arms in sequence, with nothing skipped between them.
pub open spec fn arms_chain(toks: Seq<Token>, p: int, arms: Seq<MatchArm>, next: int) -> bool
    decreases toks.len() - p, 46int, arms.len(),
{
    if arms.len() == 0 {
        next == p
    } else {
        exists|m: int|
            p <= m <= toks.len() && #[trigger] bounded_pos(toks, m) && arms_chain(
                toks,
                p,
                arms.drop_last(),
                m,
            ) && arm_matches(toks, m, arms.last(), next)
    }
}

/// `expr { arms }` after the `match` keyword.
pub open spec fn match_tail_matches(toks: Seq<Token>, p: int, s: Stmt, next: int) -> bool
    decreases toks.len() - p, 47int, 0int,
{
    s matches Stmt::Match { expr, arms } && (exists|m: int, m2: int|
        p <= m && expr_matches(toks, p, expr, m) && #[trigger] at_kind(
            toks,
            m,
            TokenKind::LeftBrace,
        ) && p <= m2 && arms_chain(toks, m + 1, arms@, m2) && #[trigger] at_kind(
            toks,
            m2,
            TokenKind::RightBrace,
        ) && next == m2 + 1)
}

/// One statement at `p` (no leading separators), ending at `next`. Dispatch
/// is keyword-first; a bare `name is expr` is a declaration; otherwise the
/// statement is an assignment or an expression statement.
pub open spec fn stmt_matches(toks: Seq<Token>, p: int, s: Stmt, next: int) -> bool
    decreases toks.len() - p, 50int, 0int,
{
    if at_kind(toks, p, TokenKind::Let) {
        s matches Stmt::Let { name, type_annotation, value } && declaration_tail_matches(
            toks,
            p + 1,
            name,
            type_annotation,
            value,
            next,
        )
    } else if at_kind(toks, p, TokenKind::Const) {
        s matches Stmt::Const { name, type_annotation, value } && declaration_tail_matches(
            toks,
            p + 1,
            name,
            type_annotation,
            value,
            next,
        )
    } else if at_kind(toks, p, TokenKind::Fn) {
        fn_tail_matches(toks, p + 1, s, next)
    } else if at_kind(toks, p, TokenKind::If) {
        if_tail_matches(toks, p + 1, s, next)
    } else if at_kind(toks, p, TokenKind::For) {
        for_tail_matches(toks, p + 1, s, next)
    } else if at_kind(toks, p, TokenKind::While) {
        while_tail_matches(toks, p + 1, s, next)
    } else if at_kind(toks, p, TokenKind::Return) {
        return_tail_matches(toks, p + 1, s, next)
    } else if at_kind(toks, p, TokenKind::Try) {
        try_tail_matches(toks, p + 1, s, next)
    } else if at_kind(toks, p, TokenKind::Match) {
        match_tail_matches(toks, p + 1, s, next)
    } else if at_kind(toks, p, TokenKind::Identifier) && at_kind(toks, p + 1, TokenKind::Is) {
        is_form_matches(toks, p, s, next)
    } else {
        ||| assignment_matches(toks, p, s, next)
        ||| (s matches Stmt::Expression(e) && (exists|m: int|
            p <= m && expr_matches(toks, p, e, m) && next == #[trigger] skip_seps(toks, m)))
    }
}

pub struct Parser {
    tokens: Vec<Token>,
    current: usize,
}

impl Parser {
    /// The tokens being parsed.
    pub closed spec fn toks(self) -> Seq<Token> {
        self.tokens@
    }

    /// The cursor: the index of the next token to look at.
    pub closed spec fn cur(self) -> int {
        self.current as int
    }

    /// The cursor is within the token list.
    pub closed spec fn wf(self) -> bool {
        self.current <= self.tokens@.len()
    }

    pub fn new(tokens: Vec<Token>) -> (r: Parser)
        ensures
            r.wf(),
            r.toks() == tokens@,
            r.cur() == 0,
    {
        Parser { tokens, current: 0 }
    }

    /// Whether the cursor stands at the end: past the list, or at `EOF`.
    fn is_at_end(&self) -> (r: bool)
        requires
            self.wf(),
        ensures
            r == (self.cur() >= self.toks().len() || spec_kind(
                &self.toks()[self.cur()].token_type,
            ) is EOF),
    {
        self.current >= self.tokens.len() || self.tokens[self.current].token_type.kind()
            == TokenKind::EOF
    }

    /// The kind of the token under the cursor, if any.
    fn peek_kind(&self) -> (r: Option<TokenKind>)
        requires
            self.wf(),
        ensures
            self.cur() < self.toks().len() ==> r == Option::Some(
                spec_kind(&self.toks()[self.cur()].token_type),
            ),
            self.cur() >= self.toks().len() ==> r is None,
    {
        if self.current < self.tokens.len() {
            Option::Some(self.tokens[self.current].token_type.kind())
        } else {
            Option::None
        }
    }

    /// Moves the cursor past the current token.
    fn bump(&mut self)
        requires
            old(self).wf(),
            old(self).cur() < old(self).toks().len(),
        ensures
            final(self).wf(),
            final(self).toks() == old(self).toks(),
            final(self).cur() == old(self).cur() + 1,
    {
        let n = self.tokens.len();  // the cursor stays within a vector's length
        self.current = self.current + 1;
    }

    /// Whether the current token has this kind.
    fn check(&self, kind: TokenKind) -> (r: bool)
        requires
            self.wf(),
        ensures
            r == (self.cur() < self.toks().len() && spec_kind(&self.toks()[self.cur()].token_type)
                == kind),
    {
        match self.peek_kind() {
            Option::Some(k) => k == kind,
            Option::None => false,
        }
    }

    /// Consumes the current token when it has this kind.
    fn match_token(&mut self, kind: TokenKind) -> (r: bool)
        requires
            old(self).wf(),
        ensures
            final(self).wf(),
            final(self).toks() == old(self).toks(),
            r == (old(self).cur() < old(self).toks().len() && spec_kind(
                &old(self).toks()[old(self).cur()].token_type,
            ) == kind),
            r ==> final(self).cur() == old(self).cur() + 1,
            !r ==> final(self).cur() == old(self).cur(),
    {
        if self.check(kind) {
            self.bump();
            true
        } else {
            false
        }
    }

    /// Consumes the current token when it is a comment.
    fn skip_comment(&mut self) -> (r: bool)
        requires
            old(self).wf(),
        ensures
            final(self).wf(),
            final(self).toks() == old(self).toks(),
            r == (old(self).cur() < old(self).toks().len() && spec_kind(
                &old(self).toks()[old(self).cur()].token_type,
            ) is Comment),
            r ==> final(self).cur() == old(self).cur() + 1,
            !r ==> final(self).cur() == old(self).cur(),
    {
        self.match_token(TokenKind::Comment)
    }

    /// Requires the current token to have this kind and consumes it.
    fn expect_token(&mut self, kind: TokenKind) -> (r: Result<(), ParseError>)
        requires
            old(self).wf(),
        ensures
            final(self).wf(),
            final(self).toks() == old(self).toks(),
            old(self).cur() <= final(self).cur() <= old(self).cur() + 1,
            r is Ok ==> final(self).cur() == old(self).cur() + 1 && old(self).cur() < old(
                self,
            ).toks().len() && spec_kind(&old(self).toks()[old(self).cur()].token_type) == kind,
            r matches Err(e) ==> e != ParseError::InvalidAssignmentTarget,
    {
        if self.is_at_end() {
            return Result::Err(ParseError::UnexpectedEnd);
        }
        let found = self.tokens[self.current].token_type.kind();
        self.bump();
        if found == kind {
            Result::Ok(())
        } else {
            Result::Err(ParseError::ExpectedToken { expected: kind, found })
        }
    }

    /// Requires the current token to be an identifier and consumes it,
    /// yielding its text.
    fn expect_identifier(&mut self) -> (r: Result<String, ParseError>)
        requires
            old(self).wf(),
        ensures
            final(self).wf(),
            final(self).toks() == old(self).toks(),
            old(self).cur() <= final(self).cur() <= old(self).cur() + 1,
            r matches Ok(name) ==> final(self).cur() == old(self).cur() + 1 && old(self).cur()
                < old(self).toks().len() && (old(self).toks()[old(self).cur()].token_type
                matches TokenType::Identifier(s) && name@ == s@),
            r matches Err(e) ==> e != ParseError::InvalidAssignmentTarget,
    {
        if self.is_at_end() {
            return Result::Err(ParseError::ExpectedIdentifier { found: TokenKind::EOF });
        }
        let name = match &self.tokens[self.current].token_type {
            TokenType::Identifier(s) => Result::Ok(s.clone()),
            other => Result::Err(ParseError::ExpectedIdentifier { found: other.kind() }),
        };
        self.bump();
        name
    }

    /// Consumes the run of newlines and comments at the cursor; a statement
    /// never demands an explicit terminator.
    fn consume_newline_or_eof(&mut self)
        requires
            old(self).wf(),
        ensures
            final(self).wf(),
            final(self).toks() == old(self).toks(),
            old(self).cur() <= final(self).cur(),
            final(self).cur() == skip_seps(old(self).toks(), old(self).cur()),
    {
        loop
            invariant
                self.wf(),
                self.toks() == old(self).toks(),
                old(self).cur() <= self.cur(),
                skip_seps(self.toks(), self.cur()) == skip_seps(old(self).toks(), old(self).cur()),
            ensures
                self.wf(),
                self.toks() == old(self).toks(),
                old(self).cur() <= self.cur(),
                self.cur() == skip_seps(old(self).toks(), old(self).cur()),
            decreases self.toks().len() - self.cur(),
        {
            let newline = self.match_token(TokenKind::Newline);
            if !newline {
                let comment = self.skip_comment();
                if !comment {
                    break;
                }
            }
        }
    }

    /// Whether the statement ahead is `name is expr`: an identifier followed
    /// by `is`. The cursor is restored exactly.
    fn is_is_assignment(&mut self) -> (r: bool)
        requires
            old(self).wf(),
        ensures
            final(self).wf(),
            final(self).toks() == old(self).toks(),
            final(self).cur() == old(self).cur(),
            r == (old(self).cur() + 1 < old(self).toks().len() && spec_kind(
                &old(self).toks()[old(self).cur()].token_type,
            ) is Identifier && spec_kind(&old(self).toks()[old(self).cur() + 1].token_type) is Is),
    {
        let start = self.current;
        let mut result = false;
        if self.check(TokenKind::Identifier) {
            self.bump();
            result = self.check(TokenKind::Is);
        }
        self.current = start;
        result
    }

    /// Whether the statement ahead is an assignment: a valid target followed
    /// by an assignment operator. The cursor is restored exactly, and no
    /// node built while looking ahead is kept.
    fn is_assignment(&mut self) -> (r: bool)
        requires
            old(self).wf(),
        ensures
            final(self).wf(),
            final(self).toks() == old(self).toks(),
            final(self).cur() == old(self).cur(),
            r ==> (exists|t: AssignmentTarget, m: int|
                #[trigger] target_matches(old(self).toks(), old(self).cur(), t, m)
                    && assign_op_at(old(self).toks(), m) is Some),
    {
        let ghost toks = self.toks();
        let ghost p0 = self.cur();
        let start = self.current;
        let target = self.parse_assignment_target();
        let ghost m = self.cur();
        let result = match target {
            Result::Ok(t) => {
                let found = self.check(TokenKind::Assign) || self.check(TokenKind::PlusAssign)
                    || self.check(TokenKind::MinusAssign);
                proof {
                    if found {
                        assert(target_matches(toks, p0, t, m));
                        assert(assign_op_at(toks, m) is Some);
                    }
                }
                found
            },
            Result::Err(_) => false,
        };
        self.current = start;
        result
    }

    /// Parses a whole program: statements separated by newlines and comments.
    /// A successful parse is the whole token list as [`program_matches`]
    /// describes it, and a token list holding only separators always parses,
    /// to the empty program.
    #[verifier::rlimit(30)]
    pub fn parse(&mut self) -> (r: Result<Program, ParseError>)
        requires
            old(self).wf(),
        ensures
            final(self).wf(),
            r is Ok ==> final(self).cur() >= final(self).toks().len() || spec_kind(
                &final(self).toks()[final(self).cur()].token_type,
            ) is EOF,
            r matches Ok(p) ==> program_matches(old(self).toks(), old(self).cur(), p.statements@),
            at_input_end(old(self).toks(), skip_seps(old(self).toks(), old(self).cur())) ==> r
                is Ok,
        decreases old(self).toks().len() - old(self).cur(), 17int,
    {
        let ghost toks = self.toks();
        let ghost p0 = self.cur();
        let mut program = Program::new();
        proof {
            assert(stmt_seq_matches(toks, p0, program.statements@, p0));
        }
        loop
            invariant
                self.wf(),
                self.toks() == toks,
                toks == old(self).toks(),
                old(self).cur() == p0,
                p0 <= self.cur(),
                at_input_end(toks, skip_seps(toks, p0)) ==> skip_seps(toks, self.cur())
                    == skip_seps(toks, p0),
                exists|m: int|
                    p0 <= m <= self.cur() && #[trigger] stmt_seq_matches(
                        toks,
                        p0,
                        program.statements@,
                        m,
                    ) && skip_seps(toks, m) == skip_seps(toks, self.cur()),
            ensures
                self.wf(),
                self.toks() == toks,
                self.cur() >= toks.len() || spec_kind(&toks[self.cur()].token_type) is EOF,
                program_matches(toks, p0, program.statements@),
            decreases self.toks().len() - self.cur(),
        {
            if self.is_at_end() {
                proof {
                    let m0 = choose|m: int|
                        p0 <= m <= self.cur() && stmt_seq_matches(toks, p0, program.statements@, m)
                            && skip_seps(toks, m) == skip_seps(toks, self.cur());
                    assert(stmt_seq_matches(toks, p0, program.statements@, m0));
                    assert(bounded_pos(toks, m0));
                    assert(skip_seps(toks, self.cur()) == self.cur());
                    assert(at_input_end(toks, skip_seps(toks, m0)));
                    assert(program_matches(toks, p0, program.statements@));
                }
                break;
            }
            let newline = self.match_token(TokenKind::Newline);
            if newline {
                continue;
            }
            let comment = self.skip_comment();
            if comment {
                continue;
            }
            let ghost sstart = self.cur();
            let ghost stmts0 = program.statements@;
            proof {
                if at_input_end(toks, skip_seps(toks, p0)) {
                    assert(skip_seps(toks, sstart) == sstart);
                    assert(false);
                }
            }
            match self.parse_statement() {
                Result::Ok(stmt) => {
                    program.add_statement(stmt);
                    proof {
                        let m0 = choose|m: int|
                            p0 <= m <= sstart && stmt_seq_matches(toks, p0, stmts0, m)
                                && skip_seps(toks, m) == skip_seps(toks, sstart);
                        assert(program.statements@.drop_last() =~= stmts0);
                        assert(stmt_seq_matches(toks, p0, program.statements@.drop_last(), m0));
                        assert(bounded_pos(toks, m0));
                        assert(skip_seps(toks, sstart) == sstart);
                        assert(bounded_pos(toks, skip_seps(toks, m0)));
                        assert(stmt_matches(
                            toks,
                            skip_seps(toks, m0),
                            program.statements@.last(),
                            self.cur(),
                        ));
                        assert(stmt_seq_matches(toks, p0, program.statements@, self.cur()));
                    }
                },
                Result::Err(e) => {
                    return Result::Err(e);
                },
            }
        }
        Result::Ok(program)
    }

    /// Parses one statement: keyword-driven dispatch first, then the
    /// speculative split between `name is expr`, assignment, and a bare
    /// expression.
    fn parse_statement(&mut self) -> (r: Result<Stmt, ParseError>)
        requires
            old(self).wf(),
        ensures
            final(self).wf(),
            final(self).toks() == old(self).toks(),
            old(self).cur() <= final(self).cur(),
            r is Ok ==> old(self).cur() < final(self).cur(),
            r matches Ok(s) ==> stmt_matches(old(self).toks(), old(self).cur(), s, final(self).cur()),
        decreases old(self).toks().len() - old(self).cur(), 15int,
    {
        let ghost toks = self.toks();
        let ghost p0 = self.cur();
        if self.match_token(TokenKind::Let) {
            self.parse_let_statement()
        } else if self.match_token(TokenKind::Const) {
            self.parse_const_statement()
        } else if self.match_token(TokenKind::Fn) {
            self.parse_function_statement()
        } else if self.match_token(TokenKind::If) {
            self.parse_if_statement()
        } else if self.match_token(TokenKind::For) {
            self.parse_for_statement()
        } else if self.match_token(TokenKind::While) {
            self.parse_while_statement()
        } else if self.match_token(TokenKind::Return) {
            self.parse_return_statement()
        } else if self.match_token(TokenKind::Try) {
            self.parse_try_statement()
        } else if self.match_token(TokenKind::Match) {
            self.parse_match_statement()
        } else if self.is_is_assignment() {
            self.parse_is_assignment_statement()
        } else if self.is_assignment() {
            self.parse_assignment_statement()
        } else {
            let expr = match self.parse_expression() {
                Result::Ok(e) => e,
                Result::Err(e) => {
                    return Result::Err(e);
                },
            };
            self.consume_newline_or_eof();
            let s = Stmt::Expression(expr);
            proof {
                assert(stmt_matches(toks, p0, s, self.cur()));
            }
            Result::Ok(s)
        }
    }

    /// `let name [: type] is expr`; the `let` is already consumed.
    fn parse_let_statement(&mut self) -> (r: Result<Stmt, ParseError>)
        requires
            old(self).wf(),
        ensures
            final(self).wf(),
            final(self).toks() == old(self).toks(),
            old(self).cur() <= final(self).cur(),
            r matches Ok(s) ==> (s matches Stmt::Let { name, type_annotation, value }
                && declaration_tail_matches(
                old(self).toks(),
                old(self).cur(),
                name,
                type_annotation,
                value,
                final(self).cur(),
            )),
        decreases old(self).toks().len() - old(self).cur(), 14int,
    {
        let ghost toks = self.toks();
        let ghost p0 = self.cur();
        let name = match self.expect_identifier() {
            Result::Ok(n) => n,
            Result::Err(e) => {
                return Result::Err(e);
            },
        };
        let type_annotation = if self.match_token(TokenKind::Colon) {
            match self.parse_type() {
                Result::Ok(t) => Option::Some(t),
                Result::Err(e) => {
                    return Result::Err(e);
                },
            }
        } else {
            Option::None
        };
        match self.expect_token(TokenKind::Is) {
            Result::Ok(()) => {},
            Result::Err(e) => {
                return Result::Err(e);
            },
        }
        let value = match self.parse_expression() {
            Result::Ok(v) => v,
            Result::Err(e) => {
                return Result::Err(e);
            },
        };
        self.consume_newline_or_eof();
        proof {
            assert(declaration_tail_matches(
                toks,
                p0,
                name,
                type_annotation,
                value,
                self.cur(),
            ));
        }
        Result::Ok(Stmt::Let { name, type_annotation, value })
    }

    /// `const name [: type] is expr`; the `const` is already consumed.
    fn parse_const_statement(&mut self) -> (r: Result<Stmt, ParseError>)
        requires
            old(self).wf(),
        ensures
            final(self).wf(),
            final(self).toks() == old(self).toks(),
            old(self).cur() <= final(self).cur(),
            r matches Ok(s) ==> (s matches Stmt::Const { name, type_annotation, value }
                && declaration_tail_matches(
                old(self).toks(),
                old(self).cur(),
                name,
                type_annotation,
                value,
                final(self).cur(),
            )),
        decreases old(self).toks().len() - old(self).cur(), 14int,
    {
        let ghost toks = self.toks();
        let ghost p0 = self.cur();
        let name = match self.expect_identifier() {
            Result::Ok(n) => n,
            Result::Err(e) => {
                return Result::Err(e);
            },
        };
        let type_annotation = if self.match_token(TokenKind::Colon) {
            match self.parse_type() {
                Result::Ok(t) => Option::Some(t),
                Result::Err(e) => {
                    return Result::Err(e);
                },
            }
        } else {
            Option::None
        };
        match self.expect_token(TokenKind::Is) {
            Result::Ok(()) => {},
            Result::Err(e) => {
                return Result::Err(e);
            },
        }
        let value = match self.parse_expression() {
            Result::Ok(v) => v,
            Result::Err(e) => {
                return Result::Err(e);
            },
        };
        self.consume_newline_or_eof();
        proof {
            assert(declaration_tail_matches(
                toks,
                p0,
                name,
                type_annotation,
                value,
                self.cur(),
            ));
        }
        Result::Ok(Stmt::Const { name, type_annotation, value })
    }

    /// `name is expr`: the declaration form without a keyword.
    fn parse_is_assignment_statement(&mut self) -> (r: Result<Stmt, ParseError>)
        requires
            old(self).wf(),
        ensures
            final(self).wf(),
            final(self).toks() == old(self).toks(),
            old(self).cur() <= final(self).cur(),
            r is Ok ==> old(self).cur() < final(self).cur(),
            r matches Ok(s) ==> is_form_matches(old(self).toks(), old(self).cur(), s, final(self).cur()),
        decreases old(self).toks().len() - old(self).cur(), 14int,
    {
        let ghost toks = self.toks();
        let ghost p0 = self.cur();
        let name = match self.expect_identifier() {
            Result::Ok(n) => n,
            Result::Err(e) => {
                return Result::Err(e);
            },
        };
        match self.expect_token(TokenKind::Is) {
            Result::Ok(()) => {},
            Result::Err(e) => {
                return Result::Err(e);
            },
        }
        let value = match self.parse_expression() {
            Result::Ok(v) => v,
            Result::Err(e) => {
                return Result::Err(e);
            },
        };
        self.consume_newline_or_eof();
        let s = Stmt::Let { name, type_annotation: Option::None, value };
        proof {
            assert(is_form_matches(toks, p0, s, self.cur()));
        }
        Result::Ok(s)
    }

    /// `target (= | += | -=) expr`.
    fn parse_assignment_statement(&mut self) -> (r: Result<Stmt, ParseError>)
        requires
            old(self).wf(),
        ensures
            final(self).wf(),
            final(self).toks() == old(self).toks(),
            old(self).cur() <= final(self).cur(),
            r is Ok ==> old(self).cur() < final(self).cur(),
            r matches Ok(s) ==> assignment_matches(old(self).toks(), old(self).cur(), s, final(self).cur()),
        decreases old(self).toks().len() - old(self).cur(), 14int,
    {
        let ghost toks = self.toks();
        let ghost p0 = self.cur();
        let target = match self.parse_assignment_target() {
            Result::Ok(t) => t,
            Result::Err(e) => {
                return Result::Err(e);
            },
        };
        let ghost oppos = self.cur();
        let operator = if self.match_token(TokenKind::Assign) {
            AssignmentOperator::Assign
        } else if self.match_token(TokenKind::PlusAssign) {
            AssignmentOperator::AddAssign
        } else if self.match_token(TokenKind::MinusAssign) {
            AssignmentOperator::SubtractAssign
        } else {
            return Result::Err(ParseError::ExpectedAssignmentOperator);
        };
        proof {
            assert(assign_op_at(toks, oppos) == Option::Some(operator));
        }
        let value = match self.parse_expression() {
            Result::Ok(v) => v,
            Result::Err(e) => {
                return Result::Err(e);
            },
        };
        self.consume_newline_or_eof();
        let s = Stmt::Assignment { target, operator, value };
        proof {
            assert(assignment_matches(toks, p0, s, self.cur()));
        }
        Result::Ok(s)
    }

    /// `fn name(params) [-> type] { body }`; the `fn` is already consumed.
    #[verifier::rlimit(30)]
    fn parse_function_statement(&mut self) -> (r: Result<Stmt, ParseError>)
        requires
            old(self).wf(),
        ensures
            final(self).wf(),
            final(self).toks() == old(self).toks(),
            old(self).cur() <= final(self).cur(),
            r matches Ok(s) ==> fn_tail_matches(old(self).toks(), old(self).cur(), s, final(self).cur()),
        decreases old(self).toks().len() - old(self).cur(), 14int,
    {
        let ghost toks = self.toks();
        let ghost p0 = self.cur();
        let name = match self.expect_identifier() {
            Result::Ok(n) => n,
            Result::Err(e) => {
                return Result::Err(e);
            },
        };
        match self.expect_token(TokenKind::LeftParen) {
            Result::Ok(()) => {},
            Result::Err(e) => {
                return Result::Err(e);
            },
        }
        let ghost pstart = self.cur();
        let mut parameters: Vec<Parameter> = Vec::new();
        if !self.check(TokenKind::RightParen) {
            loop
                invariant_except_break
                    ({
                        ||| (parameters@.len() == 0 && self.cur() == pstart)
                        ||| (parameters@.len() > 0 && (exists|m: int|
                            pstart <= m && params_chain(toks, pstart, parameters@, m)
                                && #[trigger] at_kind(toks, m, TokenKind::Comma) && self.cur() == m
                                + 1))
                    }),
                invariant
                    self.wf(),
                    self.toks() == toks,
                    toks == old(self).toks(),
                    old(self).cur() == p0,
                    p0 <= pstart <= self.cur(),
                ensures
                    self.wf(),
                    self.toks() == toks,
                    p0 <= self.cur(),
                    parameters@.len() > 0,
                    params_chain(toks, pstart, parameters@, self.cur()),
                decreases self.toks().len() - self.cur(),
            {
                let ghost params0 = parameters@;
                let ghost istart = self.cur();
                let param_name = match self.expect_identifier() {
                    Result::Ok(n) => n,
                    Result::Err(e) => {
                        return Result::Err(e);
                    },
                };
                let type_annotation = if self.match_token(TokenKind::Colon) {
                    match self.parse_type() {
                        Result::Ok(t) => Option::Some(t),
                        Result::Err(e) => {
                            return Result::Err(e);
                        },
                    }
                } else {
                    Option::None
                };
                parameters.push(Parameter { name: param_name, type_annotation });
                proof {
                    assert(parameters@.drop_last() =~= params0);
                    assert(param_matches(toks, istart, parameters@.last(), self.cur()));
                    assert(params_chain(toks, pstart, parameters@, self.cur()));
                }
                let ghost cpos = self.cur();
                if !self.match_token(TokenKind::Comma) {
                    break;
                }
                proof {
                    assert(at_kind(toks, cpos, TokenKind::Comma));
                }
            }
        }
        let ghost rp = self.cur();
        match self.expect_token(TokenKind::RightParen) {
            Result::Ok(()) => {},
            Result::Err(e) => {
                return Result::Err(e);
            },
        }
        let ghost ap = self.cur();
        proof {
            assert(at_kind(toks, rp, TokenKind::RightParen));
        }
        let return_type = if self.match_token(TokenKind::Arrow) {
            match self.parse_type() {
                Result::Ok(t) => Option::Some(t),
                Result::Err(e) => {
                    return Result::Err(e);
                },
            }
        } else {
            Option::None
        };
        let ghost lb = self.cur();
        match self.expect_token(TokenKind::LeftBrace) {
            Result::Ok(()) => {},
            Result::Err(e) => {
                return Result::Err(e);
            },
        }
        let body = match self.parse_block() {
            Result::Ok(b) => b,
            Result::Err(e) => {
                return Result::Err(e);
            },
        };
        let s = Stmt::Function {
            name,
            parameters: Rc::new(parameters),
            return_type,
            body: Rc::new(body),
        };
        proof {
            assert(at_kind(toks, lb, TokenKind::LeftBrace));
            assert(bounded_pos(toks, ap));
            assert(fn_tail_matches(toks, p0, s, self.cur()));
        }
        Result::Ok(s)
    }

    /// `if cond { … } [else { … }]`; the `if` is already consumed. No
    /// parentheses are required around the condition.
    #[verifier::rlimit(30)]
    fn parse_if_statement(&mut self) -> (r: Result<Stmt, ParseError>)
        requires
            old(self).wf(),
        ensures
            final(self).wf(),
            final(self).toks() == old(self).toks(),
            old(self).cur() <= final(self).cur(),
            r matches Ok(s) ==> if_tail_matches(old(self).toks(), old(self).cur(), s, final(self).cur()),
        decreases old(self).toks().len() - old(self).cur(), 14int,
    {
        let ghost toks = self.toks();
        let ghost p0 = self.cur();
        let condition = match self.parse_expression() {
            Result::Ok(c) => c,
            Result::Err(e) => {
                return Result::Err(e);
            },
        };
        let ghost lb = self.cur();
        match self.expect_token(TokenKind::LeftBrace) {
            Result::Ok(()) => {},
            Result::Err(e) => {
                return Result::Err(e);
            },
        }
        let then_block = match self.parse_block() {
            Result::Ok(b) => b,
            Result::Err(e) => {
                return Result::Err(e);
            },
        };
        let ghost m2 = self.cur();
        proof {
            assert(at_kind(toks, lb, TokenKind::LeftBrace));
        }
        let else_block = if self.match_token(TokenKind::Else) {
            match self.expect_token(TokenKind::LeftBrace) {
                Result::Ok(()) => {},
                Result::Err(e) => {
                    return Result::Err(e);
                },
            }
            match self.parse_block() {
                Result::Ok(b) => Option::Some(b),
                Result::Err(e) => {
                    return Result::Err(e);
                },
            }
        } else {
            Option::None
        };
        let s = Stmt::If { condition, then_block, else_block };
        proof {
            assert(bounded_pos(toks, lb));
            assert(bounded_pos(toks, m2));
            assert(if_tail_matches(toks, p0, s, self.cur()));
        }
        Result::Ok(s)
    }

    /// `for name in iterable { … }`; the `for` is already consumed.
    fn parse_for_statement(&mut self) -> (r: Result<Stmt, ParseError>)
        requires
            old(self).wf(),
        ensures
            final(self).wf(),
            final(self).toks() == old(self).toks(),
            old(self).cur() <= final(self).cur(),
            r matches Ok(s) ==> for_tail_matches(old(self).toks(), old(self).cur(), s, final(self).cur()),
        decreases old(self).toks().len() - old(self).cur(), 14int,
    {
        let ghost toks = self.toks();
        let ghost p0 = self.cur();
        let variable = match self.expect_identifier() {
            Result::Ok(n) => n,
            Result::Err(e) => {
                return Result::Err(e);
            },
        };
        match self.expect_token(TokenKind::In) {
            Result::Ok(()) => {},
            Result::Err(e) => {
                return Result::Err(e);
            },
        }
        let iterable = match self.parse_expression() {
            Result::Ok(it) => it,
            Result::Err(e) => {
                return Result::Err(e);
            },
        };
        let ghost lb = self.cur();
        match self.expect_token(TokenKind::LeftBrace) {
            Result::Ok(()) => {},
            Result::Err(e) => {
                return Result::Err(e);
            },
        }
        let body = match self.parse_block() {
            Result::Ok(b) => b,
            Result::Err(e) => {
                return Result::Err(e);
            },
        };
        let s = Stmt::For { variable, iterable, body };
        proof {
            assert(at_kind(toks, lb, TokenKind::LeftBrace));
            assert(for_tail_matches(toks, p0, s, self.cur()));
        }
        Result::Ok(s)
    }

    /// `while cond { … }`; the `while` is already consumed.
    fn parse_while_statement(&mut self) -> (r: Result<Stmt, ParseError>)
        requires
            old(self).wf(),
        ensures
            final(self).wf(),
            final(self).toks() == old(self).toks(),
            old(self).cur() <= final(self).cur(),
            r matches Ok(s) ==> while_tail_matches(old(self).toks(), old(self).cur(), s, final(self).cur()),
        decreases old(self).toks().len() - old(self).cur(), 14int,
    {
        let ghost toks = self.toks();
        let ghost p0 = self.cur();
        let condition = match self.parse_expression() {
            Result::Ok(c) => c,
            Result::Err(e) => {
                return Result::Err(e);
            },
        };
        let ghost lb = self.cur();
        match self.expect_token(TokenKind::LeftBrace) {
            Result::Ok(()) => {},
            Result::Err(e) => {
                return Result::Err(e);
            },
        }
        let body = match self.parse_block() {
            Result::Ok(b) => b,
            Result::Err(e) => {
                return Result::Err(e);
            },
        };
        let s = Stmt::While { condition, body };
        proof {
            assert(at_kind(toks, lb, TokenKind::LeftBrace));
            assert(while_tail_matches(toks, p0, s, self.cur()));
        }
        Result::Ok(s)
    }

    /// `return [expr]`; the `return` is already consumed.
    fn parse_return_statement(&mut self) -> (r: Result<Stmt, ParseError>)
        requires
            old(self).wf(),
        ensures
            final(self).wf(),
            final(self).toks() == old(self).toks(),
            old(self).cur() <= final(self).cur(),
            r matches Ok(s) ==> return_tail_matches(old(self).toks(), old(self).cur(), s, final(self).cur()),
        decreases old(self).toks().len() - old(self).cur(), 14int,
    {
        let ghost toks = self.toks();
        let ghost p0 = self.cur();
        let value = if self.check(TokenKind::Newline) || self.is_at_end() {
            Option::None
        } else {
            match self.parse_expression() {
                Result::Ok(v) => Option::Some(v),
                Result::Err(e) => {
                    return Result::Err(e);
                },
            }
        };
        self.consume_newline_or_eof();
        let s = Stmt::Return(value);
        proof {
            assert(return_tail_matches(toks, p0, s, self.cur()));
        }
        Result::Ok(s)
    }

    /// `try { … } catch [Type] [as name] { … }*`; the `try` is consumed.
    #[verifier::rlimit(30)]
    fn parse_try_statement(&mut self) -> (r: Result<Stmt, ParseError>)
        requires
            old(self).wf(),
        ensures
            final(self).wf(),
            final(self).toks() == old(self).toks(),
            old(self).cur() <= final(self).cur(),
            r matches Ok(s) ==> try_tail_matches(old(self).toks(), old(self).cur(), s, final(self).cur()),
        decreases old(self).toks().len() - old(self).cur(), 14int,
    {
        let ghost toks = self.toks();
        let ghost p0 = self.cur();
        match self.expect_token(TokenKind::LeftBrace) {
            Result::Ok(()) => {},
            Result::Err(e) => {
                return Result::Err(e);
            },
        }
        let body = match self.parse_block() {
            Result::Ok(b) => b,
            Result::Err(e) => {
                return Result::Err(e);
            },
        };
        let ghost bodyend = self.cur();
        let mut catch_clauses: Vec<CatchClause> = Vec::new();
        proof {
            assert(catches_chain(toks, bodyend, catch_clauses@, bodyend));
        }
        loop
            invariant
                self.wf(),
                self.toks() == toks,
                toks == old(self).toks(),
                old(self).cur() == p0,
                p0 <= bodyend <= self.cur(),
                catches_chain(toks, bodyend, catch_clauses@, self.cur()),
            ensures
                self.wf(),
                self.toks() == toks,
                p0 <= self.cur(),
                catches_chain(toks, bodyend, catch_clauses@, self.cur()),
                !at_kind(toks, self.cur(), TokenKind::Catch),
            decreases self.toks().len() - self.cur(),
        {
            let ghost cstart = self.cur();
            let ghost cs0 = catch_clauses@;
            let caught = self.match_token(TokenKind::Catch);
            if !caught {
                break;
            }
            proof {
                assert(at_kind(toks, cstart, TokenKind::Catch));
            }
            let has_type = self.check(TokenKind::Identifier) && !self.peek_is_word("as");
            let exception_type = if has_type {
                match self.expect_identifier() {
                    Result::Ok(n) => Option::Some(n),
                    Result::Err(e) => {
                        return Result::Err(e);
                    },
                }
            } else {
                Option::None
            };
            let has_var = self.peek_is_word("as");
            let variable = if has_var {
                self.bump();
                match self.expect_identifier() {
                    Result::Ok(n) => Option::Some(n),
                    Result::Err(e) => {
                        return Result::Err(e);
                    },
                }
            } else {
                Option::None
            };
            let ghost lb = self.cur();
            match self.expect_token(TokenKind::LeftBrace) {
                Result::Ok(()) => {},
                Result::Err(e) => {
                    return Result::Err(e);
                },
            }
            let catch_body = match self.parse_block() {
                Result::Ok(b) => b,
                Result::Err(e) => {
                    return Result::Err(e);
                },
            };
            catch_clauses.push(CatchClause { exception_type, variable, body: catch_body });
            proof {
                assert(at_kind(toks, lb, TokenKind::LeftBrace));
                assert(catch_clauses@.drop_last() =~= cs0);
                assert(catches_chain(toks, bodyend, catch_clauses@.drop_last(), cstart));
                assert(catch_clause_matches(toks, cstart, catch_clauses@.last(), self.cur()));
                assert(catches_chain(toks, bodyend, catch_clauses@, self.cur()));
            }
        }
        let s = Stmt::Try { body, catch_clauses };
        proof {
            assert(bounded_pos(toks, bodyend));
            assert(s matches Stmt::Try { body: b2, catch_clauses: c2 } && block_matches(
                toks,
                p0 + 1,
                b2@,
                bodyend,
            ) && catches_chain(toks, bodyend, c2@, self.cur()));
            assert(try_tail_matches(toks, p0, s, self.cur()));
        }
        Result::Ok(s)
    }

    /// Whether the current token is an identifier with exactly this text.
    fn peek_is_word(&self, word: &str) -> (r: bool)
        requires
            self.wf(),
        ensures
            r == (self.cur() < self.toks().len() && (self.toks()[self.cur()].token_type
                matches TokenType::Identifier(s) && s@ == word@)),
    {
        if self.current < self.tokens.len() {
            match &self.tokens[self.current].token_type {
                TokenType::Identifier(s) => str_eq(s.as_str(), word),
                _ => false,
            }
        } else {
            false
        }
    }

    /// `match expr { pattern -> { … } … }`; the `match` is consumed.
    #[verifier::rlimit(30)]
    fn parse_match_statement(&mut self) -> (r: Result<Stmt, ParseError>)
        requires
            old(self).wf(),
        ensures
            final(self).wf(),
            final(self).toks() == old(self).toks(),
            old(self).cur() <= final(self).cur(),
            r matches Ok(s) ==> match_tail_matches(old(self).toks(), old(self).cur(), s, final(self).cur()),
        decreases old(self).toks().len() - old(self).cur(), 14int,
    {
        let ghost toks = self.toks();
        let ghost p0 = self.cur();
        let expr = match self.parse_expression() {
            Result::Ok(e) => e,
            Result::Err(e) => {
                return Result::Err(e);
            },
        };
        let ghost lb = self.cur();
        match self.expect_token(TokenKind::LeftBrace) {
            Result::Ok(()) => {},
            Result::Err(e) => {
                return Result::Err(e);
            },
        }
        let ghost astart = self.cur();
        let mut arms: Vec<MatchArm> = Vec::new();
        proof {
            assert(at_kind(toks, lb, TokenKind::LeftBrace));
            assert(arms_chain(toks, astart, arms@, astart));
        }
        loop
            invariant
                self.wf(),
                self.toks() == toks,
                toks == old(self).toks(),
                old(self).cur() == p0,
                p0 <= astart <= self.cur(),
                arms_chain(toks, astart, arms@, self.cur()),
            decreases self.toks().len() - self.cur(),
        {
            if self.check(TokenKind::RightBrace) || self.is_at_end() {
                break;
            }
            let ghost arm_start = self.cur();
            let ghost arms0 = arms@;
            let pattern = match self.parse_pattern() {
                Result::Ok(p) => p,
                Result::Err(e) => {
                    return Result::Err(e);
                },
            };
            let ghost arrow = self.cur();
            match self.expect_token(TokenKind::Arrow) {
                Result::Ok(()) => {},
                Result::Err(e) => {
                    return Result::Err(e);
                },
            }
            let ghost lb2 = self.cur();
            match self.expect_token(TokenKind::LeftBrace) {
                Result::Ok(()) => {},
                Result::Err(e) => {
                    return Result::Err(e);
                },
            }
            let body = match self.parse_block() {
                Result::Ok(b) => b,
                Result::Err(e) => {
                    return Result::Err(e);
                },
            };
            arms.push(MatchArm { pattern, body });
            proof {
                assert(at_kind(toks, arrow, TokenKind::Arrow));
                assert(at_kind(toks, lb2, TokenKind::LeftBrace));
                assert(arms@.drop_last() =~= arms0);
                assert(bounded_pos(toks, arm_start));
                assert(arms_chain(toks, astart, arms@.drop_last(), arm_start));
                assert(arm_matches(toks, arm_start, arms@.last(), self.cur()));
                assert(arms_chain(toks, astart, arms@, self.cur()));
            }
        }
        let ghost rb = self.cur();
        match self.expect_token(TokenKind::RightBrace) {
            Result::Ok(()) => {
                let s = Stmt::Match { expr, arms };
                proof {
                    assert(at_kind(toks, rb, TokenKind::RightBrace));
                    assert(match_tail_matches(toks, p0, s, self.cur()));
                }
                Result::Ok(s)
            },
            Result::Err(e) => Result::Err(e),
        }
    }

    /// The statements of a brace-delimited block; consumes the closing `}`.
    #[verifier::rlimit(30)]
    fn parse_block(&mut self) -> (r: Result<Vec<Stmt>, ParseError>)
        requires
            old(self).wf(),
        ensures
            final(self).wf(),
            final(self).toks() == old(self).toks(),
            old(self).cur() <= final(self).cur(),
            r matches Ok(stmts) ==> block_matches(
                old(self).toks(),
                old(self).cur(),
                stmts@,
                final(self).cur(),
            ),
        decreases old(self).toks().len() - old(self).cur(), 16int,
    {
        let ghost toks = self.toks();
        let ghost p0 = self.cur();
        let mut statements: Vec<Stmt> = Vec::new();
        proof {
            assert(stmt_seq_matches(toks, p0, statements@, p0));
        }
        loop
            invariant
                self.wf(),
                self.toks() == toks,
                toks == old(self).toks(),
                old(self).cur() == p0,
                p0 <= self.cur(),
                exists|m: int|
                    p0 <= m <= self.cur() && #[trigger] stmt_seq_matches(toks, p0, statements@, m)
                        && skip_seps(toks, m) == skip_seps(toks, self.cur()),
            decreases self.toks().len() - self.cur(),
        {
            if self.check(TokenKind::RightBrace) || self.is_at_end() {
                break;
            }
            let newline = self.match_token(TokenKind::Newline);
            if newline {
                continue;
            }
            let comment = self.skip_comment();
            if comment {
                continue;
            }
            let ghost sstart = self.cur();
            let ghost stmts0 = statements@;
            match self.parse_statement() {
                Result::Ok(stmt) => {
                    statements.push(stmt);
                    proof {
                        let m0 = choose|m: int|
                            p0 <= m <= sstart && stmt_seq_matches(toks, p0, stmts0, m)
                                && skip_seps(toks, m) == skip_seps(toks, sstart);
                        assert(statements@.drop_last() =~= stmts0);
                        assert(stmt_seq_matches(toks, p0, statements@.drop_last(), m0));
                        assert(bounded_pos(toks, m0));
                        assert(skip_seps(toks, sstart) == sstart);
                        assert(bounded_pos(toks, skip_seps(toks, m0)));
                        assert(stmt_matches(
                            toks,
                            skip_seps(toks, m0),
                            statements@.last(),
                            self.cur(),
                        ));
                        assert(stmt_seq_matches(toks, p0, statements@, self.cur()));
                    }
                },
                Result::Err(e) => {
                    return Result::Err(e);
                },
            }
        }
        let ghost rb = self.cur();
        match self.expect_token(TokenKind::RightBrace) {
            Result::Ok(()) => {
                proof {
                    let m0 = choose|m: int|
                        p0 <= m <= rb && stmt_seq_matches(toks, p0, statements@, m) && skip_seps(
                            toks,
                            m,
                        ) == skip_seps(toks, rb);
                    assert(stmt_seq_matches(toks, p0, statements@, m0));
                    assert(bounded_pos(toks, m0));
                    assert(skip_seps(toks, rb) == rb);
                    assert(at_kind(toks, skip_seps(toks, m0), TokenKind::RightBrace));
                    assert(block_matches(toks, p0, statements@, self.cur()));
                }
                Result::Ok(statements)
            },
            Result::Err(e) => Result::Err(e),
        }
    }

    /// An expression: the bottom of the precedence ladder.
    fn parse_expression(&mut self) -> (r: Result<Expr, ParseError>)
        requires
            old(self).wf(),
        ensures
            final(self).wf(),
            final(self).toks() == old(self).toks(),
            old(self).cur() <= final(self).cur(),
            r is Ok ==> old(self).cur() < final(self).cur(),
            r matches Ok(e) ==> expr_matches(old(self).toks(), old(self).cur(), e, final(self).cur()),
            r matches Err(e) ==> e != ParseError::InvalidAssignmentTarget,
        decreases old(self).toks().len() - old(self).cur(), 12int,
    {
        self.parse_or()
    }

    /// `a || b`, left-associative.
    fn parse_or(&mut self) -> (r: Result<Expr, ParseError>)
        requires
            old(self).wf(),
        ensures
            final(self).wf(),
            final(self).toks() == old(self).toks(),
            old(self).cur() <= final(self).cur(),
            r is Ok ==> old(self).cur() < final(self).cur(),
            r matches Ok(e) ==> ladder_matches(
                old(self).toks(),
                old(self).cur(),
                e,
                final(self).cur(),
                0,
            ),
            r matches Err(e) ==> e != ParseError::InvalidAssignmentTarget,
        decreases old(self).toks().len() - old(self).cur(), 11int,
    {
        let ghost toks = self.toks();
        let ghost p0 = self.cur();
        let mut expr = match self.parse_and() {
            Result::Ok(e) => e,
            Result::Err(e) => {
                return Result::Err(e);
            },
        };
        proof {
            assert(ladder_chain(toks, p0, expr, self.cur(), 0));
        }
        loop
            invariant
                self.wf(),
                self.toks() == toks,
                toks == old(self).toks(),
                p0 < self.cur(),
                old(self).cur() == p0,
                ladder_chain(toks, p0, expr, self.cur(), 0),
            ensures
                self.wf(),
                self.toks() == toks,
                p0 < self.cur(),
                ladder_chain(toks, p0, expr, self.cur(), 0),
                level_op(0, toks, self.cur()) is None,
            decreases self.toks().len() - self.cur(),
        {
            let ghost mid = self.cur();
            let ghost left0 = expr;
            let op =
            if self.match_token(TokenKind::Or) {
                BinaryOperator::Or
            } else {
                break;
            };
            proof {
                assert(clamp_level(0) == 0 && clamp_level(1) == 1 && clamp_level(2) == 2
                    && clamp_level(3) == 3 && clamp_level(4) == 4 && clamp_level(5) == 5);
                assert(level_op(0, toks, mid) == Option::Some(op));
            }
            let right = match self.parse_and() {
                Result::Ok(e) => e,
                Result::Err(e) => {
                    return Result::Err(e);
                },
            };
            expr = Expr::Binary { left: Box::new(expr), operator: op, right: Box::new(right) };
            proof {
                assert(ladder_chain(toks, p0, left0, mid, 0));
                assert(ladder_chain(toks, p0, expr, self.cur(), 0));
            }
        }
        proof {
            assert(ladder_matches(toks, p0, expr, self.cur(), 0));
        }
        Result::Ok(expr)
    }

    /// `a && b`, left-associative.
    fn parse_and(&mut self) -> (r: Result<Expr, ParseError>)
        requires
            old(self).wf(),
        ensures
            final(self).wf(),
            final(self).toks() == old(self).toks(),
            old(self).cur() <= final(self).cur(),
            r is Ok ==> old(self).cur() < final(self).cur(),
            r matches Ok(e) ==> ladder_matches(
                old(self).toks(),
                old(self).cur(),
                e,
                final(self).cur(),
                1,
            ),
            r matches Err(e) ==> e != ParseError::InvalidAssignmentTarget,
        decreases old(self).toks().len() - old(self).cur(), 10int,
    {
        let ghost toks = self.toks();
        let ghost p0 = self.cur();
        let mut expr = match self.parse_equality() {
            Result::Ok(e) => e,
            Result::Err(e) => {
                return Result::Err(e);
            },
        };
        proof {
            assert(ladder_chain(toks, p0, expr, self.cur(), 1));
        }
        loop
            invariant
                self.wf(),
                self.toks() == toks,
                toks == old(self).toks(),
                p0 < self.cur(),
                old(self).cur() == p0,
                ladder_chain(toks, p0, expr, self.cur(), 1),
            ensures
                self.wf(),
                self.toks() == toks,
                p0 < self.cur(),
                ladder_chain(toks, p0, expr, self.cur(), 1),
                level_op(1, toks, self.cur()) is None,
            decreases self.toks().len() - self.cur(),
        {
            let ghost mid = self.cur();
            let ghost left0 = expr;
            let op =
            if self.match_token(TokenKind::And) {
                BinaryOperator::And
            } else {
                break;
            };
            proof {
                assert(clamp_level(0) == 0 && clamp_level(1) == 1 && clamp_level(2) == 2
                    && clamp_level(3) == 3 && clamp_level(4) == 4 && clamp_level(5) == 5);
                assert(level_op(1, toks, mid) == Option::Some(op));
            }
            let right = match self.parse_equality() {
                Result::Ok(e) => e,
                Result::Err(e) => {
                    return Result::Err(e);
                },
            };
            expr = Expr::Binary { left: Box::new(expr), operator: op, right: Box::new(right) };
            proof {
                assert(ladder_chain(toks, p0, left0, mid, 1));
                assert(ladder_chain(toks, p0, expr, self.cur(), 1));
            }
        }
        proof {
            assert(ladder_matches(toks, p0, expr, self.cur(), 1));
        }
        Result::Ok(expr)
    }

    /// `== !=`, left-associative.
    fn parse_equality(&mut self) -> (r: Result<Expr, ParseError>)
        requires
            old(self).wf(),
        ensures
            final(self).wf(),
            final(self).toks() == old(self).toks(),
            old(self).cur() <= final(self).cur(),
            r is Ok ==> old(self).cur() < final(self).cur(),
            r matches Ok(e) ==> ladder_matches(
                old(self).toks(),
                old(self).cur(),
                e,
                final(self).cur(),
                2,
            ),
            r matches Err(e) ==> e != ParseError::InvalidAssignmentTarget,
        decreases old(self).toks().len() - old(self).cur(), 9int,
    {
        let ghost toks = self.toks();
        let ghost p0 = self.cur();
        let mut expr = match self.parse_comparison() {
            Result::Ok(e) => e,
            Result::Err(e) => {
                return Result::Err(e);
            },
        };
        proof {
            assert(ladder_chain(toks, p0, expr, self.cur(), 2));
        }
        loop
            invariant
                self.wf(),
                self.toks() == toks,
                toks == old(self).toks(),
                p0 < self.cur(),
                old(self).cur() == p0,
                ladder_chain(toks, p0, expr, self.cur(), 2),
            ensures
                self.wf(),
                self.toks() == toks,
                p0 < self.cur(),
                ladder_chain(toks, p0, expr, self.cur(), 2),
                level_op(2, toks, self.cur()) is None,
            decreases self.toks().len() - self.cur(),
        {
            let ghost mid = self.cur();
            let ghost left0 = expr;
            let op =
            if self.match_token(TokenKind::Equal) {
                BinaryOperator::Equal
            } else if self.match_token(TokenKind::NotEqual) {
                BinaryOperator::NotEqual
            } else {
                break;
            };
            proof {
                assert(clamp_level(0) == 0 && clamp_level(1) == 1 && clamp_level(2) == 2
                    && clamp_level(3) == 3 && clamp_level(4) == 4 && clamp_level(5) == 5);
                assert(level_op(2, toks, mid) == Option::Some(op));
            }
            let right = match self.parse_comparison() {
                Result::Ok(e) => e,
                Result::Err(e) => {
                    return Result::Err(e);
                },
            };
            expr = Expr::Binary { left: Box::new(expr), operator: op, right: Box::new(right) };
            proof {
                assert(ladder_chain(toks, p0, left0, mid, 2));
                assert(ladder_chain(toks, p0, expr, self.cur(), 2));
            }
        }
        proof {
            assert(ladder_matches(toks, p0, expr, self.cur(), 2));
        }
        Result::Ok(expr)
    }

    /// `< <= > >=`, left-associative.
    fn parse_comparison(&mut self) -> (r: Result<Expr, ParseError>)
        requires
            old(self).wf(),
        ensures
            final(self).wf(),
            final(self).toks() == old(self).toks(),
            old(self).cur() <= final(self).cur(),
            r is Ok ==> old(self).cur() < final(self).cur(),
            r matches Ok(e) ==> ladder_matches(
                old(self).toks(),
                old(self).cur(),
                e,
                final(self).cur(),
                3,
            ),
            r matches Err(e) ==> e != ParseError::InvalidAssignmentTarget,
        decreases old(self).toks().len() - old(self).cur(), 8int,
    {
        let ghost toks = self.toks();
        let ghost p0 = self.cur();
        let mut expr = match self.parse_term() {
            Result::Ok(e) => e,
            Result::Err(e) => {
                return Result::Err(e);
            },
        };
        proof {
            assert(ladder_chain(toks, p0, expr, self.cur(), 3));
        }
        loop
            invariant
                self.wf(),
                self.toks() == toks,
                toks == old(self).toks(),
                p0 < self.cur(),
                old(self).cur() == p0,
                ladder_chain(toks, p0, expr, self.cur(), 3),
            ensures
                self.wf(),
                self.toks() == toks,
                p0 < self.cur(),
                ladder_chain(toks, p0, expr, self.cur(), 3),
                level_op(3, toks, self.cur()) is None,
            decreases self.toks().len() - self.cur(),
        {
            let ghost mid = self.cur();
            let ghost left0 = expr;
            let op =
            if self.match_token(TokenKind::Less) {
                BinaryOperator::Less
            } else if self.match_token(TokenKind::LessEqual) {
                BinaryOperator::LessEqual
            } else if self.match_token(TokenKind::Greater) {
                BinaryOperator::Greater
            } else if self.match_token(TokenKind::GreaterEqual) {
                BinaryOperator::GreaterEqual
            } else {
                break;
            };
            proof {
                assert(clamp_level(0) == 0 && clamp_level(1) == 1 && clamp_level(2) == 2
                    && clamp_level(3) == 3 && clamp_level(4) == 4 && clamp_level(5) == 5);
                assert(level_op(3, toks, mid) == Option::Some(op));
            }
            let right = match self.parse_term() {
                Result::Ok(e) => e,
                Result::Err(e) => {
                    return Result::Err(e);
                },
            };
            expr = Expr::Binary { left: Box::new(expr), operator: op, right: Box::new(right) };
            proof {
                assert(ladder_chain(toks, p0, left0, mid, 3));
                assert(ladder_chain(toks, p0, expr, self.cur(), 3));
            }
        }
        proof {
            assert(ladder_matches(toks, p0, expr, self.cur(), 3));
        }
        Result::Ok(expr)
    }

    /// `+ -`, left-associative.
    fn parse_term(&mut self) -> (r: Result<Expr, ParseError>)
        requires
            old(self).wf(),
        ensures
            final(self).wf(),
            final(self).toks() == old(self).toks(),
            old(self).cur() <= final(self).cur(),
            r is Ok ==> old(self).cur() < final(self).cur(),
            r matches Ok(e) ==> ladder_matches(
                old(self).toks(),
                old(self).cur(),
                e,
                final(self).cur(),
                4,
            ),
            r matches Err(e) ==> e != ParseError::InvalidAssignmentTarget,
        decreases old(self).toks().len() - old(self).cur(), 7int,
    {
        let ghost toks = self.toks();
        let ghost p0 = self.cur();
        let mut expr = match self.parse_factor() {
            Result::Ok(e) => e,
            Result::Err(e) => {
                return Result::Err(e);
            },
        };
        proof {
            assert(ladder_chain(toks, p0, expr, self.cur(), 4));
        }
        loop
            invariant
                self.wf(),
                self.toks() == toks,
                toks == old(self).toks(),
                p0 < self.cur(),
                old(self).cur() == p0,
                ladder_chain(toks, p0, expr, self.cur(), 4),
            ensures
                self.wf(),
                self.toks() == toks,
                p0 < self.cur(),
                ladder_chain(toks, p0, expr, self.cur(), 4),
                level_op(4, toks, self.cur()) is None,
            decreases self.toks().len() - self.cur(),
        {
            let ghost mid = self.cur();
            let ghost left0 = expr;
            let op =
            if self.match_token(TokenKind::Plus) {
                BinaryOperator::Add
            } else if self.match_token(TokenKind::Minus) {
                BinaryOperator::Subtract
            } else {
                break;
            };
            proof {
                assert(clamp_level(0) == 0 && clamp_level(1) == 1 && clamp_level(2) == 2
                    && clamp_level(3) == 3 && clamp_level(4) == 4 && clamp_level(5) == 5);
                assert(level_op(4, toks, mid) == Option::Some(op));
            }
            let right = match self.parse_factor() {
                Result::Ok(e) => e,
                Result::Err(e) => {
                    return Result::Err(e);
                },
            };
            expr = Expr::Binary { left: Box::new(expr), operator: op, right: Box::new(right) };
            proof {
                assert(ladder_chain(toks, p0, left0, mid, 4));
                assert(ladder_chain(toks, p0, expr, self.cur(), 4));
            }
        }
        proof {
            assert(ladder_matches(toks, p0, expr, self.cur(), 4));
        }
        Result::Ok(expr)
    }

    /// `* / % **`, left-associative.
    fn parse_factor(&mut self) -> (r: Result<Expr, ParseError>)
        requires
            old(self).wf(),
        ensures
            final(self).wf(),
            final(self).toks() == old(self).toks(),
            old(self).cur() <= final(self).cur(),
            r is Ok ==> old(self).cur() < final(self).cur(),
            r matches Ok(e) ==> ladder_matches(
                old(self).toks(),
                old(self).cur(),
                e,
                final(self).cur(),
                5,
            ),
            r matches Err(e) ==> e != ParseError::InvalidAssignmentTarget,
        decreases old(self).toks().len() - old(self).cur(), 6int,
    {
        let ghost toks = self.toks();
        let ghost p0 = self.cur();
        let mut expr = match self.parse_unary() {
            Result::Ok(e) => e,
            Result::Err(e) => {
                return Result::Err(e);
            },
        };
        proof {
            assert(ladder_chain(toks, p0, expr, self.cur(), 5));
        }
        loop
            invariant
                self.wf(),
                self.toks() == toks,
                toks == old(self).toks(),
                p0 < self.cur(),
                old(self).cur() == p0,
                ladder_chain(toks, p0, expr, self.cur(), 5),
            ensures
                self.wf(),
                self.toks() == toks,
                p0 < self.cur(),
                ladder_chain(toks, p0, expr, self.cur(), 5),
                level_op(5, toks, self.cur()) is None,
            decreases self.toks().len() - self.cur(),
        {
            let ghost mid = self.cur();
            let ghost left0 = expr;
            let op =
            if self.match_token(TokenKind::Multiply) {
                BinaryOperator::Multiply
            } else if self.match_token(TokenKind::Divide) {
                BinaryOperator::Divide
            } else if self.match_token(TokenKind::Modulo) {
                BinaryOperator::Modulo
            } else if self.match_token(TokenKind::Power) {
                BinaryOperator::Power
            } else {
                break;
            };
            proof {
                assert(clamp_level(0) == 0 && clamp_level(1) == 1 && clamp_level(2) == 2
                    && clamp_level(3) == 3 && clamp_level(4) == 4 && clamp_level(5) == 5);
                assert(level_op(5, toks, mid) == Option::Some(op));
            }
            let right = match self.parse_unary() {
                Result::Ok(e) => e,
                Result::Err(e) => {
                    return Result::Err(e);
                },
            };
            expr = Expr::Binary { left: Box::new(expr), operator: op, right: Box::new(right) };
            proof {
                assert(ladder_chain(toks, p0, left0, mid, 5));
                assert(ladder_chain(toks, p0, expr, self.cur(), 5));
            }
        }
        proof {
            assert(ladder_matches(toks, p0, expr, self.cur(), 5));
        }
        Result::Ok(expr)
    }

    /// `! - ~`, right-associative prefixes.
    fn parse_unary(&mut self) -> (r: Result<Expr, ParseError>)
        requires
            old(self).wf(),
        ensures
            final(self).wf(),
            final(self).toks() == old(self).toks(),
            old(self).cur() <= final(self).cur(),
            r is Ok ==> old(self).cur() < final(self).cur(),
            r matches Ok(e) ==> unary_matches(old(self).toks(), old(self).cur(), e, final(self).cur()),
            r matches Err(e) ==> e != ParseError::InvalidAssignmentTarget,
        decreases old(self).toks().len() - old(self).cur(), 5int,
    {
        let op = if self.match_token(TokenKind::Not) {
            Option::Some(UnaryOperator::Not)
        } else if self.match_token(TokenKind::Minus) {
            Option::Some(UnaryOperator::Minus)
        } else if self.match_token(TokenKind::BitwiseNot) {
            Option::Some(UnaryOperator::BitwiseNot)
        } else {
            Option::None
        };
        match op {
            Option::Some(operator) => {
                let operand = match self.parse_unary() {
                    Result::Ok(e) => e,
                    Result::Err(e) => {
                        return Result::Err(e);
                    },
                };
                Result::Ok(Expr::Unary { operator, operand: Box::new(operand) })
            },
            Option::None => self.parse_postfix(),
        }
    }

    /// Postfix syntax: calls, indexing, field access, and method calls.
    #[verifier::rlimit(30)]
    fn parse_postfix(&mut self) -> (r: Result<Expr, ParseError>)
        requires
            old(self).wf(),
        ensures
            final(self).wf(),
            final(self).toks() == old(self).toks(),
            old(self).cur() <= final(self).cur(),
            r is Ok ==> old(self).cur() < final(self).cur(),
            r matches Ok(e) ==> postfix_matches(old(self).toks(), old(self).cur(), e, final(self).cur()),
            r matches Err(e) ==> e != ParseError::InvalidAssignmentTarget,
        decreases old(self).toks().len() - old(self).cur(), 3int,
    {
        let ghost toks = self.toks();
        let ghost p0 = self.cur();
        let mut expr = match self.parse_primary() {
            Result::Ok(e) => e,
            Result::Err(e) => {
                return Result::Err(e);
            },
        };
        proof {
            assert(postfix_chain(toks, p0, expr, self.cur()));
        }
        loop
            invariant
                self.wf(),
                self.toks() == toks,
                toks == old(self).toks(),
                p0 < self.cur(),
                old(self).cur() == p0,
                postfix_chain(toks, p0, expr, self.cur()),
            ensures
                self.wf(),
                self.toks() == toks,
                p0 < self.cur(),
                postfix_matches(toks, p0, expr, self.cur()),
            decreases self.toks().len() - self.cur(),
        {
            let ghost mid = self.cur();
            let ghost left0 = expr;
            if self.match_token(TokenKind::LeftParen) {
                let ghost argstart = self.cur();
                let mut args: Vec<Expr> = Vec::new();
                if !self.check(TokenKind::RightParen) {
                    loop
                        invariant_except_break
                            ({
                                ||| (args@.len() == 0 && self.cur() == argstart)
                                ||| (args@.len() > 0 && (exists|m: int|
                                    argstart <= m && #[trigger] args_chain(
                                        toks,
                                        argstart,
                                        args@,
                                        m,
                                    ) && at_kind(toks, m, TokenKind::Comma) && self.cur() == m
                                        + 1))
                            }),
                        invariant
                            self.wf(),
                            self.toks() == toks,
                            toks == old(self).toks(),
                            old(self).cur() == p0,
                            p0 < self.cur(),
                            argstart <= self.cur(),
                        ensures
                            self.wf(),
                            self.toks() == toks,
                            p0 < self.cur(),
                            args@.len() > 0,
                            args_chain(toks, argstart, args@, self.cur()),
                        decreases self.toks().len() - self.cur(),
                    {
                        let ghost args0 = args@;
                        let ghost estart = self.cur();
                        match self.parse_expression() {
                            Result::Ok(a) => {
                                args.push(a);
                            },
                            Result::Err(e) => {
                                return Result::Err(e);
                            },
                        }
                        proof {
                            assert(args@.drop_last() =~= args0);
                            assert(args_chain(toks, argstart, args@, self.cur()));
                        }
                        if !self.match_token(TokenKind::Comma) {
                            break;
                        }
                    }
                }
                let ghost rp = self.cur();
                match self.expect_token(TokenKind::RightParen) {
                    Result::Ok(()) => {},
                    Result::Err(e) => {
                        return Result::Err(e);
                    },
                }
                match expr {
                    Expr::Identifier(name) => {
                        proof {
                            assert(at_kind(toks, rp, TokenKind::RightParen));
                            assert(primary_matches(toks, p0, left0, mid));
                        }
                        expr = Expr::Call { name, args };
                        proof {
                            assert(paren_args_match(toks, mid + 1, expr->Call_args@, self.cur()));
                            assert(postfix_chain(toks, p0, expr, self.cur()));
                        }
                    },
                    _ => {
                        return Result::Err(ParseError::InvalidFunctionCall);
                    },
                }
            } else if self.match_token(TokenKind::LeftBracket) {
                let index = match self.parse_expression() {
                    Result::Ok(i) => i,
                    Result::Err(e) => {
                        return Result::Err(e);
                    },
                };
                let ghost rb = self.cur();
                match self.expect_token(TokenKind::RightBracket) {
                    Result::Ok(()) => {},
                    Result::Err(e) => {
                        return Result::Err(e);
                    },
                }
                expr = Expr::Index { object: Box::new(expr), index: Box::new(index) };
                proof {
                    assert(at_kind(toks, mid, TokenKind::LeftBracket));
                    assert(at_kind(toks, rb, TokenKind::RightBracket));
                    assert(postfix_chain(toks, p0, expr, self.cur()));
                }
            } else if self.match_token(TokenKind::Dot) {
                proof {
                    assert(at_kind(toks, mid, TokenKind::Dot));
                }
                let field = match self.expect_identifier() {
                    Result::Ok(f) => f,
                    Result::Err(e) => {
                        return Result::Err(e);
                    },
                };
                if self.match_token(TokenKind::LeftParen) {
                    let ghost argstart = self.cur();
                    let mut args: Vec<Expr> = Vec::new();
                    if !self.check(TokenKind::RightParen) {
                        loop
                            invariant_except_break
                                ({
                                    ||| (args@.len() == 0 && self.cur() == argstart)
                                    ||| (args@.len() > 0 && (exists|m: int|
                                        argstart <= m && #[trigger] args_chain(
                                            toks,
                                            argstart,
                                            args@,
                                            m,
                                        ) && at_kind(toks, m, TokenKind::Comma) && self.cur() == m
                                            + 1))
                                }),
                            invariant
                                self.wf(),
                                self.toks() == toks,
                                toks == old(self).toks(),
                                old(self).cur() == p0,
                                p0 < self.cur(),
                                argstart <= self.cur(),
                            ensures
                                self.wf(),
                                self.toks() == toks,
                                p0 < self.cur(),
                                args@.len() > 0,
                                args_chain(toks, argstart, args@, self.cur()),
                            decreases self.toks().len() - self.cur(),
                        {
                            let ghost args0 = args@;
                            match self.parse_expression() {
                                Result::Ok(a) => {
                                    args.push(a);
                                },
                                Result::Err(e) => {
                                    return Result::Err(e);
                                },
                            }
                            proof {
                                assert(args@.drop_last() =~= args0);
                                assert(args_chain(toks, argstart, args@, self.cur()));
                            }
                            if !self.match_token(TokenKind::Comma) {
                                break;
                            }
                        }
                    }
                    let ghost rp = self.cur();
                    match self.expect_token(TokenKind::RightParen) {
                        Result::Ok(()) => {},
                        Result::Err(e) => {
                            return Result::Err(e);
                        },
                    }
                    expr = Expr::MethodCall { object: Box::new(expr), method: field, args };
                    proof {
                        assert(at_kind(toks, rp, TokenKind::RightParen));
                        assert(paren_args_match(
                            toks,
                            mid + 3,
                            expr->MethodCall_args@,
                            self.cur(),
                        ));
                        assert(postfix_chain(toks, p0, expr, self.cur()));
                    }
                } else {
                    expr = Expr::FieldAccess { object: Box::new(expr), field };
                    proof {
                        assert(postfix_chain(toks, p0, expr, self.cur()));
                    }
                }
            } else {
                break;
            }
        }
        Result::Ok(expr)
    }

    /// Literals, identifiers, parenthesized expressions, array and map
    /// literals, and raw command captures.
    #[verifier::rlimit(30)]
    fn parse_primary(&mut self) -> (r: Result<Expr, ParseError>)
        requires
            old(self).wf(),
        ensures
            final(self).wf(),
            final(self).toks() == old(self).toks(),
            old(self).cur() <= final(self).cur(),
            r is Ok ==> old(self).cur() < final(self).cur(),
            r matches Ok(e) ==> primary_matches(old(self).toks(), old(self).cur(), e, final(self).cur()),
            r matches Err(e) ==> e != ParseError::InvalidAssignmentTarget,
        decreases old(self).toks().len() - old(self).cur(), 2int,
    {
        let ghost toks = self.toks();
        let ghost p0 = self.cur();
        if self.is_at_end() {
            return Result::Err(ParseError::UnexpectedEnd);
        }
        let first: Expr = match &self.tokens[self.current].token_type {
            TokenType::Integer(n) => Expr::Integer(*n),
            TokenType::Float(text) => Expr::Float(text.clone()),
            TokenType::String(st) => Expr::String(st.clone()),
            TokenType::Boolean(b) => Expr::Boolean(*b),
            TokenType::True => Expr::Boolean(true),
            TokenType::False => Expr::Boolean(false),
            TokenType::Nil => Expr::Nil,
            TokenType::Identifier(name) => Expr::Identifier(name.clone()),
            TokenType::Command(cmd) => Expr::Command(cmd.clone()),
            TokenType::LeftParen => {
                self.bump();
                let inner = match self.parse_expression() {
                    Result::Ok(e) => e,
                    Result::Err(e) => {
                        return Result::Err(e);
                    },
                };
                let ghost rp = self.cur();
                return match self.expect_token(TokenKind::RightParen) {
                    Result::Ok(()) => {
                        proof {
                            assert(at_kind(toks, rp, TokenKind::RightParen));
                            assert(primary_matches(toks, p0, inner, self.cur()));
                        }
                        Result::Ok(inner)
                    },
                    Result::Err(e) => Result::Err(e),
                };
            },
            TokenType::LeftBracket => {
                self.bump();
                let ghost start = self.cur();
                let mut elements: Vec<Expr> = Vec::new();
                if !self.check(TokenKind::RightBracket) {
                    loop
                        invariant_except_break
                            ({
                                ||| (elements@.len() == 0 && self.cur() == start)
                                ||| (elements@.len() > 0 && (exists|m: int|
                                    start <= m && #[trigger] args_chain(
                                        toks,
                                        start,
                                        elements@,
                                        m,
                                    ) && at_kind(toks, m, TokenKind::Comma) && self.cur() == m
                                        + 1))
                            }),
                        invariant
                            self.wf(),
                            self.toks() == toks,
                            toks == old(self).toks(),
                            old(self).cur() == p0,
                            p0 < self.cur(),
                            start <= self.cur(),
                        ensures
                            self.wf(),
                            self.toks() == toks,
                            p0 < self.cur(),
                            elements@.len() > 0,
                            args_chain(toks, start, elements@, self.cur()),
                        decreases self.toks().len() - self.cur(),
                    {
                        let ghost elems0 = elements@;
                        match self.parse_expression() {
                            Result::Ok(e) => {
                                elements.push(e);
                            },
                            Result::Err(e) => {
                                return Result::Err(e);
                            },
                        }
                        proof {
                            assert(elements@.drop_last() =~= elems0);
                            assert(args_chain(toks, start, elements@, self.cur()));
                        }
                        if !self.match_token(TokenKind::Comma) {
                            break;
                        }
                    }
                }
                let ghost rb = self.cur();
                return match self.expect_token(TokenKind::RightBracket) {
                    Result::Ok(()) => {
                        let out = Expr::Array(elements);
                        proof {
                            assert(at_kind(toks, rb, TokenKind::RightBracket));
                            assert(primary_matches(toks, p0, out, self.cur()));
                        }
                        Result::Ok(out)
                    },
                    Result::Err(e) => Result::Err(e),
                };
            },
            TokenType::LeftBrace => {
                self.bump();
                let ghost start = self.cur();
                let mut pairs: Vec<(Expr, Expr)> = Vec::new();
                if !self.check(TokenKind::RightBrace) {
                    loop
                        invariant_except_break
                            ({
                                ||| (pairs@.len() == 0 && self.cur() == start)
                                ||| (pairs@.len() > 0 && (exists|m: int|
                                    start <= m && #[trigger] pairs_chain(toks, start, pairs@, m)
                                        && at_kind(toks, m, TokenKind::Comma) && self.cur() == m
                                        + 1))
                            }),
                        invariant
                            self.wf(),
                            self.toks() == toks,
                            toks == old(self).toks(),
                            old(self).cur() == p0,
                            p0 < self.cur(),
                            start <= self.cur(),
                        ensures
                            self.wf(),
                            self.toks() == toks,
                            p0 < self.cur(),
                            pairs@.len() > 0,
                            pairs_chain(toks, start, pairs@, self.cur()),
                        decreases self.toks().len() - self.cur(),
                    {
                        let ghost pairs0 = pairs@;
                        let key = match self.parse_expression() {
                            Result::Ok(k) => k,
                            Result::Err(e) => {
                                return Result::Err(e);
                            },
                        };
                        let ghost colon_pos = self.cur();
                        match self.expect_token(TokenKind::Colon) {
                            Result::Ok(()) => {},
                            Result::Err(e) => {
                                return Result::Err(e);
                            },
                        }
                        proof {
                            assert(at_kind(toks, colon_pos, TokenKind::Colon));
                        }
                        let value = match self.parse_expression() {
                            Result::Ok(v) => v,
                            Result::Err(e) => {
                                return Result::Err(e);
                            },
                        };
                        pairs.push((key, value));
                        proof {
                            assert(pairs@.drop_last() =~= pairs0);
                            assert(pairs_chain(toks, start, pairs@, self.cur()));
                        }
                        if !self.match_token(TokenKind::Comma) {
                            break;
                        }
                    }
                }
                let ghost rb = self.cur();
                return match self.expect_token(TokenKind::RightBrace) {
                    Result::Ok(()) => {
                        let out = Expr::MapLit(pairs);
                        proof {
                            assert(at_kind(toks, rb, TokenKind::RightBrace));
                            assert(primary_matches(toks, p0, out, self.cur()));
                        }
                        Result::Ok(out)
                    },
                    Result::Err(e) => Result::Err(e),
                };
            },
            other => {
                return Result::Err(ParseError::UnexpectedToken(other.kind()));
            },
        };
        self.bump();
        proof {
            assert(primary_matches(toks, p0, first, self.cur()));
        }
        Result::Ok(first)
    }

    /// A pattern in a match arm: the identifier `_` is the wildcard, any
    /// other identifier binds, anything else is a literal.
    fn parse_pattern(&mut self) -> (r: Result<Pattern, ParseError>)
        requires
            old(self).wf(),
        ensures
            final(self).wf(),
            final(self).toks() == old(self).toks(),
            old(self).cur() <= final(self).cur(),
            r is Ok ==> old(self).cur() < final(self).cur(),
            r matches Ok(p) ==> pattern_matches(old(self).toks(), old(self).cur(), p, final(self).cur()),
        decreases old(self).toks().len() - old(self).cur(), 13int,
    {
        if self.check(TokenKind::Identifier) {
            let underscore = self.peek_is_word("_");
            let name = match self.expect_identifier() {
                Result::Ok(n) => n,
                Result::Err(e) => {
                    return Result::Err(e);
                },
            };
            if underscore {
                Result::Ok(Pattern::Wildcard)
            } else {
                Result::Ok(Pattern::Identifier(name))
            }
        } else {
            match self.parse_expression() {
                Result::Ok(e) => Result::Ok(Pattern::Literal(e)),
                Result::Err(e) => Result::Err(e),
            }
        }
    }

    /// The left-hand side of an assignment: an identifier, an index
    /// expression, or a field access; any other postfix shape is rejected.
    fn parse_assignment_target(&mut self) -> (r: Result<AssignmentTarget, ParseError>)
        requires
            old(self).wf(),
        ensures
            final(self).wf(),
            final(self).toks() == old(self).toks(),
            old(self).cur() <= final(self).cur(),
            r is Ok ==> old(self).cur() < final(self).cur(),
            r matches Ok(t) ==> target_matches(old(self).toks(), old(self).cur(), t, final(self).cur()),
            r matches Err(e) && e == ParseError::InvalidAssignmentTarget ==> (exists|pe: Expr|
                #[trigger] postfix_matches(old(self).toks(), old(self).cur(), pe, final(self).cur())
                    && !(pe is Identifier) && !(pe is Index) && !(pe is FieldAccess)),
        decreases old(self).toks().len() - old(self).cur(), 4int,
    {
        let ghost toks = self.toks();
        let ghost p0 = self.cur();
        let expr = match self.parse_postfix() {
            Result::Ok(e) => e,
            Result::Err(e) => {
                return Result::Err(e);
            },
        };
        match expr {
            Expr::Identifier(name) => Result::Ok(AssignmentTarget::Identifier(name)),
            Expr::Index { object, index } => Result::Ok(AssignmentTarget::Index { object, index }),
            Expr::FieldAccess { object, field } => Result::Ok(
                AssignmentTarget::FieldAccess { object, field },
            ),
            other => {
                proof {
                    assert(postfix_matches(toks, p0, other, self.cur()));
                }
                Result::Err(ParseError::InvalidAssignmentTarget)
            },
        }
    }

    /// A type annotation: a type name after `:` or `->`. Annotations are
    /// recorded, never enforced.
    fn parse_type(&mut self) -> (r: Result<Type, ParseError>)
        requires
            old(self).wf(),
        ensures
            final(self).wf(),
            final(self).toks() == old(self).toks(),
            old(self).cur() <= final(self).cur(),
            r is Ok ==> old(self).cur() < final(self).cur(),
            r matches Ok(t) ==> type_matches(old(self).toks(), old(self).cur(), t)
                && final(self).cur() == old(self).cur() + 1,
        decreases old(self).toks().len() - old(self).cur(), 1int,
    {
        if self.is_at_end() {
            return Result::Err(ParseError::ExpectedType);
        }
        let t = match &self.tokens[self.current].token_type {
            TokenType::Identifier(name) => {
                if str_eq(name.as_str(), "int") {
                    Type::Int
                } else if str_eq(name.as_str(), "float") {
                    Type::Float
                } else if str_eq(name.as_str(), "string") {
                    Type::String
                } else if str_eq(name.as_str(), "bool") {
                    Type::Bool
                } else if str_eq(name.as_str(), "any") {
                    Type::Any
                } else {
                    Type::Custom(name.clone())
                }
            },
            _ => {
                return Result::Err(ParseError::ExpectedType);
            },
        };
        self.bump();
        Result::Ok(t)
    }
}

} // verus!
