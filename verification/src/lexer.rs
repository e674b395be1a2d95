//! The tokenizer.
//!
//! Source text is scanned left to right into tokens. The scan never fails:
//! bad input becomes `Error` tokens, and the stream always ends with a single
//! `EOF` token. Every token carries the line and column where it starts,
//! proved equal to the line and column functions of the source text; newlines
//! are tokens of their own, and comments are kept as tokens for later layers
//! to skip.
//!
//! [`token_matches`] is the specification of one scanning step: it relates
//! the source and a start position to the token produced and the position
//! after it.

use crate::strutil::push_char;
use crate::token::{keyword_or_identifier, keyword_or_identifier_spec, Token, TokenType};
use vstd::prelude::*;
use vstd::string::StrSliceExecFns;
use vstd::string::StringExecFns;

verus! {

/// The line (1-based) on which position `p` of `s` falls.
pub open spec fn line_at(s: Seq<char>, p: int) -> int
    decreases p,
{
    if p <= 0 {
        1
    } else {
        line_at(s, p - 1) + if s[p - 1] == '\n' {
            1int
        } else {
            0int
        }
    }
}

/// The column (1-based) of position `p` of `s`: the distance past the last
/// newline.
pub open spec fn col_at(s: Seq<char>, p: int) -> int
    decreases p,
{
    if p <= 0 {
        1
    } else if s[p - 1] == '\n' {
        1
    } else {
        col_at(s, p - 1) + 1
    }
}

proof fn lemma_position_bounds(s: Seq<char>, p: int)
    requires
        0 <= p,
    ensures
        1 <= line_at(s, p) <= p + 1,
        1 <= col_at(s, p) <= p + 1,
    decreases p,
{
    if p > 0 {
        lemma_position_bounds(s, p - 1);
    }
}

/// Whitespace the tokenizer skips: every Unicode whitespace character except
/// the newline, which is a token.
pub open spec fn skippable_char(c: char) -> bool {
    c == ' ' || c == '\t' || c == '\r' || c == '\u{B}' || c == '\u{C}' || c == '\u{85}' || c
        == '\u{A0}' || c == '\u{1680}' || c == '\u{2000}' || c == '\u{2001}' || c == '\u{2002}' || c
        == '\u{2003}' || c == '\u{2004}' || c == '\u{2005}' || c == '\u{2006}' || c == '\u{2007}'
        || c == '\u{2008}' || c == '\u{2009}' || c == '\u{200A}' || c == '\u{2028}' || c
        == '\u{2029}' || c == '\u{202F}' || c == '\u{205F}' || c == '\u{3000}'
}

fn is_skippable(c: char) -> (r: bool)
    ensures
        r == skippable_char(c),
{
    c == ' ' || c == '\t' || c == '\r' || c == '\u{B}' || c == '\u{C}' || c == '\u{85}' || c
        == '\u{A0}' || c == '\u{1680}' || c == '\u{2000}' || c == '\u{2001}' || c == '\u{2002}' || c
        == '\u{2003}' || c == '\u{2004}' || c == '\u{2005}' || c == '\u{2006}' || c == '\u{2007}'
        || c == '\u{2008}' || c == '\u{2009}' || c == '\u{200A}' || c == '\u{2028}' || c
        == '\u{2029}' || c == '\u{202F}' || c == '\u{205F}' || c == '\u{3000}'
}

/// The first position at or after `p` that does not hold skippable
/// whitespace.
pub open spec fn skip_ws(s: Seq<char>, p: int) -> int
    decreases s.len() - p,
{
    if p < 0 || p >= s.len() {
        p
    } else if skippable_char(s[p]) {
        skip_ws(s, p + 1)
    } else {
        p
    }
}

proof fn lemma_skip_ws_bounds(s: Seq<char>, p: int)
    requires
        0 <= p <= s.len(),
    ensures
        p <= skip_ws(s, p) <= s.len(),
    decreases s.len() - p,
{
    if p < s.len() && skippable_char(s[p]) {
        lemma_skip_ws_bounds(s, p + 1);
    }
}

/// The first position at or after `p` holding a newline, or the end.
pub open spec fn line_end(s: Seq<char>, p: int) -> int
    decreases s.len() - p,
{
    if p < 0 || p >= s.len() {
        s.len() as int
    } else if s[p] == '\n' {
        p
    } else {
        line_end(s, p + 1)
    }
}

proof fn lemma_line_end_bounds(s: Seq<char>, p: int)
    requires
        0 <= p <= s.len(),
    ensures
        p <= line_end(s, p) <= s.len(),
    decreases s.len() - p,
{
    if p < s.len() && s[p] != '\n' {
        lemma_line_end_bounds(s, p + 1);
    }
}

/// A decimal digit.
pub open spec fn digit_char_p(c: char) -> bool {
    '0' <= c && c <= '9'
}

/// A character that may continue an identifier.
pub open spec fn ident_char(c: char) -> bool {
    ('a' <= c && c <= 'z') || ('A' <= c && c <= 'Z') || digit_char_p(c) || c == '_'
}

/// A character that may begin an identifier.
pub open spec fn ident_start_char(c: char) -> bool {
    ('a' <= c && c <= 'z') || ('A' <= c && c <= 'Z') || c == '_'
}

fn is_digit_char(c: char) -> (r: bool)
    ensures
        r == digit_char_p(c),
{
    '0' <= c && c <= '9'
}

fn is_ident_char(c: char) -> (r: bool)
    ensures
        r == ident_char(c),
{
    ('a' <= c && c <= 'z') || ('A' <= c && c <= 'Z') || ('0' <= c && c <= '9') || c == '_'
}

fn is_ident_start_char(c: char) -> (r: bool)
    ensures
        r == ident_start_char(c),
{
    ('a' <= c && c <= 'z') || ('A' <= c && c <= 'Z') || c == '_'
}

/// The first position at or after `p` that is not a digit.
pub open spec fn digit_end(s: Seq<char>, p: int) -> int
    decreases s.len() - p,
{
    if p < 0 || p >= s.len() {
        s.len() as int
    } else if digit_char_p(s[p]) {
        digit_end(s, p + 1)
    } else {
        p
    }
}

proof fn lemma_digit_end_bounds(s: Seq<char>, p: int)
    requires
        0 <= p <= s.len(),
    ensures
        p <= digit_end(s, p) <= s.len(),
    decreases s.len() - p,
{
    if p < s.len() && digit_char_p(s[p]) {
        lemma_digit_end_bounds(s, p + 1);
    }
}

/// The first position at or after `p` that cannot continue an identifier.
pub open spec fn ident_end(s: Seq<char>, p: int) -> int
    decreases s.len() - p,
{
    if p < 0 || p >= s.len() {
        s.len() as int
    } else if ident_char(s[p]) {
        ident_end(s, p + 1)
    } else {
        p
    }
}

proof fn lemma_ident_end_bounds(s: Seq<char>, p: int)
    requires
        0 <= p <= s.len(),
    ensures
        p <= ident_end(s, p) <= s.len(),
    decreases s.len() - p,
{
    if p < s.len() && ident_char(s[p]) {
        lemma_ident_end_bounds(s, p + 1);
    }
}

/// The numeric value of a run of decimal digits, most significant first.
pub open spec fn str_to_int(t: Seq<char>) -> int
    decreases t,
{
    if t.len() == 0 {
        0
    } else {
        str_to_int(t.drop_last()) * 10 + (t.last() as int - 48)
    }
}


proof fn lemma_str_to_int_nonneg(s: Seq<char>, p: int, e: int)
    requires
        0 <= p <= e <= s.len(),
        forall|j: int| p <= j < e ==> digit_char_p(#[trigger] s[j]),
    ensures
        str_to_int(s.subrange(p, e)) >= 0,
    decreases e - p,
{
    if e > p {
        lemma_str_to_int_nonneg(s, p, e - 1);
        assert(s.subrange(p, e).drop_last() =~= s.subrange(p, e - 1));
        assert(s.subrange(p, e).last() == s[e - 1]);
    } else {
        assert(s.subrange(p, e) =~= Seq::<char>::empty());
    }
}

/// Appending more digits never shrinks the value.
proof fn lemma_str_to_int_grows(s: Seq<char>, p: int, k: int, e: int)
    requires
        0 <= p <= k <= e <= s.len(),
        forall|j: int| p <= j < e ==> digit_char_p(#[trigger] s[j]),
    ensures
        str_to_int(s.subrange(p, k)) <= str_to_int(s.subrange(p, e)),
    decreases e - k,
{
    if k < e {
        lemma_str_to_int_grows(s, p, k, e - 1);
        lemma_str_to_int_nonneg(s, p, e - 1);
        assert(s.subrange(p, e).drop_last() =~= s.subrange(p, e - 1));
        assert(s.subrange(p, e).last() == s[e - 1]);
        let x = str_to_int(s.subrange(p, e - 1));
        assert(x >= 0 ==> x <= 10 * x) by (nonlinear_arith);
    }
}

/// What a backslash escape stands for: the known escapes map to their
/// character, anything else keeps the backslash literally.
pub open spec fn escape_expansion(c: char) -> Seq<char> {
    if c == 'n' {
        seq!['\n']
    } else if c == 't' {
        seq!['\t']
    } else if c == 'r' {
        seq!['\r']
    } else if c == '\\' {
        seq!['\\']
    } else if c == '"' {
        seq!['"']
    } else if c == '\'' {
        seq!['\'']
    } else {
        seq!['\\', c]
    }
}

/// Scans a double-quoted string body from `p` (just after the opening
/// quote): the value with escapes expanded and the position after the
/// closing quote, or nothing if the string never closes.
pub open spec fn dq_scan(s: Seq<char>, p: int) -> Option<(Seq<char>, int)>
    decreases s.len() - p,
{
    if p < 0 || p >= s.len() {
        Option::None
    } else if s[p] == '"' {
        Option::Some((Seq::empty(), p + 1))
    } else if s[p] == '\\' {
        if p + 1 < s.len() {
            match dq_scan(s, p + 2) {
                Option::Some((rest, e)) => Option::Some((escape_expansion(s[p + 1]) + rest, e)),
                Option::None => Option::None,
            }
        } else {
            Option::None
        }
    } else {
        match dq_scan(s, p + 1) {
            Option::Some((rest, e)) => Option::Some((seq![s[p]] + rest, e)),
            Option::None => Option::None,
        }
    }
}

proof fn lemma_dq_scan_bounds(s: Seq<char>, p: int)
    requires
        0 <= p <= s.len(),
    ensures
        dq_scan(s, p) matches Option::Some(r) ==> p < r.1 <= s.len() && r.0.len() <= r.1 - 1 - p,
    decreases s.len() - p,
{
    if 0 <= p && p < s.len() {
        if s[p] == '\\' && p + 1 < s.len() {
            lemma_dq_scan_bounds(s, p + 2);
        } else if s[p] != '"' {
            lemma_dq_scan_bounds(s, p + 1);
        }
    }
}

/// The position of the first single quote at or after `p`, or the end.
pub open spec fn sq_end(s: Seq<char>, p: int) -> int
    decreases s.len() - p,
{
    if p < 0 || p >= s.len() {
        s.len() as int
    } else if s[p] == '\'' {
        p
    } else {
        sq_end(s, p + 1)
    }
}

proof fn lemma_sq_end_bounds(s: Seq<char>, p: int)
    requires
        0 <= p <= s.len(),
    ensures
        p <= sq_end(s, p) <= s.len(),
    decreases s.len() - p,
{
    if p < s.len() && s[p] != '\'' {
        lemma_sq_end_bounds(s, p + 1);
    }
}

/// The position of the first `*/` at or after `p`, or the end.
pub open spec fn bc_end(s: Seq<char>, p: int) -> int
    decreases s.len() - p,
{
    if p < 0 || p >= s.len() {
        s.len() as int
    } else if s[p] == '*' && p + 1 < s.len() && s[p + 1] == '/' {
        p
    } else {
        bc_end(s, p + 1)
    }
}

proof fn lemma_bc_end_bounds(s: Seq<char>, p: int)
    requires
        0 <= p <= s.len(),
    ensures
        p <= bc_end(s, p) <= s.len(),
        bc_end(s, p) < s.len() ==> bc_end(s, p) + 2 <= s.len(),
    decreases s.len() - p,
{
    if p < s.len() && !(s[p] == '*' && p + 1 < s.len() && s[p + 1] == '/') {
        lemma_bc_end_bounds(s, p + 1);
    }
}

/// The position after the parenthesis that closes a `$( … )` capture whose
/// scan stands at `p` with `depth` parentheses open, or nothing if the
/// capture never closes.
pub open spec fn cmd_end(s: Seq<char>, p: int, depth: int) -> Option<int>
    decreases s.len() - p,
{
    if p < 0 || p >= s.len() {
        Option::None
    } else if s[p] == '(' {
        cmd_end(s, p + 1, depth + 1)
    } else if s[p] == ')' {
        if depth == 1 {
            Option::Some(p + 1)
        } else {
            cmd_end(s, p + 1, depth - 1)
        }
    } else {
        cmd_end(s, p + 1, depth)
    }
}

proof fn lemma_cmd_end_bounds(s: Seq<char>, p: int, depth: int)
    requires
        0 <= p <= s.len(),
    ensures
        cmd_end(s, p, depth) matches Option::Some(e) ==> p < e <= s.len(),
    decreases s.len() - p,
{
    if 0 <= p && p < s.len() {
        if s[p] == '(' {
            lemma_cmd_end_bounds(s, p + 1, depth + 1);
        } else if s[p] == ')' {
            if depth != 1 {
                lemma_cmd_end_bounds(s, p + 1, depth - 1);
            }
        } else {
            lemma_cmd_end_bounds(s, p + 1, depth);
        }
    }
}

/// One scanning step: from position `p` of `s` (whitespace already skipped),
/// the token's type `t`, the position `next` after the token, and the
/// token's recorded `length` are as the language defines them.
pub open spec fn token_matches(s: Seq<char>, p: int, t: TokenType, next: int, tlen: int) -> bool {
    if p >= s.len() {
        t is EOF && next == p && tlen == 0
    } else {
        let c = s[p];
        if c == '\n' {
            t is Newline && next == p + 1 && tlen == 1
        } else if c == '#' {
            let e = line_end(s, p + 1);
            t matches TokenType::Comment(m) && m@ == s.subrange(p + 1, e) && next == e && tlen == e
                - (p + 1)
        } else if c == '/' && p + 1 < s.len() && s[p + 1] == '*' {
            let stop = bc_end(s, p + 2);
            let e = if stop < s.len() {
                stop + 2
            } else {
                stop
            };
            t matches TokenType::Comment(m) && m@ == s.subrange(p + 2, stop) && next == e && tlen
                == stop - (p + 2)
        } else if digit_char_p(c) {
            let d1 = digit_end(s, p + 1);
            if d1 < s.len() && s[d1] == '.' && d1 + 1 < s.len() && digit_char_p(s[d1 + 1]) {
                let d2 = digit_end(s, d1 + 2);
                t matches TokenType::Float(txt) && txt@ == s.subrange(p, d2) && next == d2 && tlen
                    == d2 - p
            } else {
                let v = str_to_int(s.subrange(p, d1));
                if v <= i64::MAX {
                    t matches TokenType::Integer(i) && i == v && next == d1 && tlen == d1 - p
                } else {
                    t matches TokenType::Error(m) && m@ == "Invalid integer: "@ + s.subrange(p, d1)
                        && next == d1 && tlen == 1
                }
            }
        } else if ident_start_char(c) {
            let e = ident_end(s, p + 1);
            keyword_or_identifier_spec(s.subrange(p, e), t) && next == e && tlen == e - p
        } else if c == '"' {
            match dq_scan(s, p + 1) {
                Option::Some(r) => t matches TokenType::String(v) && v@ == r.0 && next == r.1
                    && tlen == r.0.len() + 2,
                Option::None => t matches TokenType::Error(m) && m@ == "Unterminated string"@
                    && next == s.len() && tlen == 1,
            }
        } else if c == '\'' {
            let e = sq_end(s, p + 1);
            if e < s.len() {
                t matches TokenType::String(v) && v@ == s.subrange(p + 1, e) && next == e + 1
                    && tlen == (e - (p + 1)) + 2
            } else {
                t matches TokenType::Error(m) && m@ == "Unterminated string"@ && next == s.len()
                    && tlen == 1
            }
        } else if c == '$' && p + 1 < s.len() && s[p + 1] == '(' {
            match cmd_end(s, p + 2, 1) {
                Option::Some(e) => t matches TokenType::Command(m) && m@ == s.subrange(p + 2, e - 1)
                    && next == e && tlen == (e - 1 - (p + 2)) + 3,
                Option::None => t matches TokenType::Error(m) && m@ == "Unterminated command"@
                    && next == s.len() && tlen == 1,
            }
        } else if c == '$' && p + 1 < s.len() && s[p + 1] == '{' {
            t is InterpolationStart && next == p + 2 && tlen == 2
        } else if c == '+' {
            if p + 1 < s.len() && s[p + 1] == '=' {
                t is PlusAssign && next == p + 2 && tlen == 2
            } else {
                t is Plus && next == p + 1 && tlen == 1
            }
        } else if c == '-' {
            if p + 1 < s.len() && s[p + 1] == '=' {
                t is MinusAssign && next == p + 2 && tlen == 2
            } else if p + 1 < s.len() && s[p + 1] == '>' {
                t is Arrow && next == p + 2 && tlen == 2
            } else {
                t is Minus && next == p + 1 && tlen == 1
            }
        } else if c == '*' {
            if p + 1 < s.len() && s[p + 1] == '*' {
                t is Power && next == p + 2 && tlen == 2
            } else {
                t is Multiply && next == p + 1 && tlen == 1
            }
        } else if c == '/' {
            t is Divide && next == p + 1 && tlen == 1
        } else if c == '%' {
            t is Modulo && next == p + 1 && tlen == 1
        } else if c == '=' {
            if p + 1 < s.len() && s[p + 1] == '=' {
                t is Equal && next == p + 2 && tlen == 2
            } else {
                t is Assign && next == p + 1 && tlen == 1
            }
        } else if c == '!' {
            if p + 1 < s.len() && s[p + 1] == '=' {
                t is NotEqual && next == p + 2 && tlen == 2
            } else {
                t is Not && next == p + 1 && tlen == 1
            }
        } else if c == '<' {
            if p + 1 < s.len() && s[p + 1] == '=' {
                t is LessEqual && next == p + 2 && tlen == 2
            } else if p + 1 < s.len() && s[p + 1] == '<' {
                t is LeftShift && next == p + 2 && tlen == 2
            } else {
                t is Less && next == p + 1 && tlen == 1
            }
        } else if c == '>' {
            if p + 1 < s.len() && s[p + 1] == '=' {
                t is GreaterEqual && next == p + 2 && tlen == 2
            } else if p + 1 < s.len() && s[p + 1] == '>' {
                t is RightShift && next == p + 2 && tlen == 2
            } else {
                t is Greater && next == p + 1 && tlen == 1
            }
        } else if c == '&' {
            if p + 1 < s.len() && s[p + 1] == '&' {
                t is And && next == p + 2 && tlen == 2
            } else {
                t is BitwiseAnd && next == p + 1 && tlen == 1
            }
        } else if c == '|' {
            if p + 1 < s.len() && s[p + 1] == '|' {
                t is Or && next == p + 2 && tlen == 2
            } else if p + 1 < s.len() && s[p + 1] == '>' {
                t is Pipeline && next == p + 2 && tlen == 2
            } else {
                t is BitwiseOr && next == p + 1 && tlen == 1
            }
        } else if c == '^' {
            t is BitwiseXor && next == p + 1 && tlen == 1
        } else if c == '~' {
            t is BitwiseNot && next == p + 1 && tlen == 1
        } else if c == ':' {
            if p + 1 < s.len() && s[p + 1] == '=' {
                t is ColonAssign && next == p + 2 && tlen == 2
            } else {
                t is Colon && next == p + 1 && tlen == 1
            }
        } else if c == '(' {
            t is LeftParen && next == p + 1 && tlen == 1
        } else if c == ')' {
            t is RightParen && next == p + 1 && tlen == 1
        } else if c == '{' {
            t is LeftBrace && next == p + 1 && tlen == 1
        } else if c == '}' {
            t is RightBrace && next == p + 1 && tlen == 1
        } else if c == '[' {
            t is LeftBracket && next == p + 1 && tlen == 1
        } else if c == ']' {
            t is RightBracket && next == p + 1 && tlen == 1
        } else if c == ',' {
            t is Comma && next == p + 1 && tlen == 1
        } else if c == ';' {
            t is Semicolon && next == p + 1 && tlen == 1
        } else if c == '.' {
            t is Dot && next == p + 1 && tlen == 1
        } else {
            t matches TokenType::Error(m) && m@ == "Unexpected character: '"@ + seq![c] + "'"@
                && next == p + 1 && tlen == 1
        }
    }
}

/// Where the token that starts at `p` ends: the position after it. The
/// scan is deterministic, so this is a function of the source and the
/// start position; [`token_matches`] pins the token produced up to here.
pub open spec fn token_end(s: Seq<char>, p: int) -> int {
    if p >= s.len() {
        p
    } else {
        let c = s[p];
        if c == '\n' {
            p + 1
        } else if c == '#' {
            line_end(s, p + 1)
        } else if c == '/' && p + 1 < s.len() && s[p + 1] == '*' {
            let stop = bc_end(s, p + 2);
            if stop < s.len() {
                stop + 2
            } else {
                stop
            }
        } else if digit_char_p(c) {
            let d1 = digit_end(s, p + 1);
            if d1 < s.len() && s[d1] == '.' && d1 + 1 < s.len() && digit_char_p(s[d1 + 1]) {
                digit_end(s, d1 + 2)
            } else {
                d1
            }
        } else if ident_start_char(c) {
            ident_end(s, p + 1)
        } else if c == '"' {
            match dq_scan(s, p + 1) {
                Option::Some(r) => r.1,
                Option::None => s.len() as int,
            }
        } else if c == '\'' {
            let e = sq_end(s, p + 1);
            if e < s.len() {
                e + 1
            } else {
                s.len() as int
            }
        } else if c == '$' && p + 1 < s.len() && s[p + 1] == '(' {
            match cmd_end(s, p + 2, 1) {
                Option::Some(e) => e,
                Option::None => s.len() as int,
            }
        } else if c == '$' && p + 1 < s.len() && s[p + 1] == '{' {
            p + 2
        } else if c == '+' {
            if p + 1 < s.len() && s[p + 1] == '=' {
                p + 2
            } else {
                p + 1
            }
        } else if c == '-' {
            if p + 1 < s.len() && (s[p + 1] == '=' || s[p + 1] == '>') {
                p + 2
            } else {
                p + 1
            }
        } else if c == '*' {
            if p + 1 < s.len() && s[p + 1] == '*' {
                p + 2
            } else {
                p + 1
            }
        } else if c == '=' || c == '!' {
            if p + 1 < s.len() && s[p + 1] == '=' {
                p + 2
            } else {
                p + 1
            }
        } else if c == '<' {
            if p + 1 < s.len() && (s[p + 1] == '=' || s[p + 1] == '<') {
                p + 2
            } else {
                p + 1
            }
        } else if c == '>' {
            if p + 1 < s.len() && (s[p + 1] == '=' || s[p + 1] == '>') {
                p + 2
            } else {
                p + 1
            }
        } else if c == '&' {
            if p + 1 < s.len() && s[p + 1] == '&' {
                p + 2
            } else {
                p + 1
            }
        } else if c == '|' {
            if p + 1 < s.len() && (s[p + 1] == '|' || s[p + 1] == '>') {
                p + 2
            } else {
                p + 1
            }
        } else if c == ':' {
            if p + 1 < s.len() && s[p + 1] == '=' {
                p + 2
            } else {
                p + 1
            }
        } else {
            p + 1
        }
    }
}

/// Scanning is deterministic: any token accepted at `p` ends at
/// [`token_end`]`(s, p)`.
proof fn lemma_token_end_agrees(s: Seq<char>, p: int, t: TokenType, next: int, tlen: int)
    requires
        0 <= p <= s.len(),
        token_matches(s, p, t, next, tlen),
    ensures
        next == token_end(s, p),
{
}

/// The whole token stream of `s` from position `p`: each token is scanned
/// where the previous one ended, with its source position stamped on it, and
/// the one `EOF` token closes the stream.
pub open spec fn stream_matches(s: Seq<char>, p: int, toks: Seq<Token>) -> bool
    decreases toks.len(),
{
    if toks.len() == 0 {
        false
    } else {
        let q = skip_ws(s, p);
        let t = toks.first();
        &&& token_matches(s, q, t.token_type, token_end(s, q), t.length as int)
        &&& t.line == line_at(s, q)
        &&& t.column == col_at(s, q)
        &&& if t.token_type is EOF {
            toks.len() == 1
        } else {
            stream_matches(s, token_end(s, q), toks.drop_first())
        }
    }
}

/// The tokenizer's cursor over the source text.
pub struct Lexer {
    input: Vec<char>,
    position: usize,
    line: usize,
    column: usize,
}

impl Lexer {
    /// The source text.
    pub closed spec fn src(self) -> Seq<char> {
        self.input@
    }

    /// The cursor position, in characters from the start.
    pub closed spec fn pos(self) -> int {
        self.position as int
    }

    /// The cursor is inside the text and its line and column agree with the
    /// position.
    pub closed spec fn wf(self) -> bool {
        &&& self.position <= self.input@.len()
        &&& self.input@.len() < usize::MAX
        &&& self.line == line_at(self.input@, self.position as int)
        &&& self.column == col_at(self.input@, self.position as int)
    }

    /// A lexer at the start of `input`.
    pub fn new(input: &str) -> (r: Lexer)
        requires
            input@.len() < usize::MAX,
        ensures
            r.wf(),
            r.src() == input@,
            r.pos() == 0,
    {
        let n = input.unicode_len();
        let mut chars: Vec<char> = Vec::new();
        let mut i: usize = 0;
        while i < n
            invariant
                i <= n,
                n == input@.len(),
                chars@ =~= input@.take(i as int),
            decreases n - i,
        {
            chars.push(input.get_char(i));
            proof {
                assert(chars@ =~= input@.take(i as int + 1));
            }
            i += 1;
        }
        proof {
            assert(chars@ =~= input@);
        }
        Lexer { input: chars, position: 0, line: 1, column: 1 }
    }

    /// The character under the cursor.
    fn current(&self) -> (r: Option<char>)
        requires
            self.wf(),
        ensures
            self.pos() < self.src().len() ==> r == Option::Some(self.src()[self.pos()]),
            self.pos() >= self.src().len() ==> r is None,
    {
        if self.position < self.input.len() {
            Option::Some(self.input[self.position])
        } else {
            Option::None
        }
    }

    /// The character after the one under the cursor.
    pub fn peek(&self) -> (r: Option<char>)
        requires
            self.wf(),
        ensures
            self.pos() + 1 < self.src().len() ==> r == Option::Some(self.src()[self.pos() + 1]),
            self.pos() + 1 >= self.src().len() ==> r is None,
    {
        if self.position + 1 < self.input.len() {
            Option::Some(self.input[self.position + 1])
        } else {
            Option::None
        }
    }

    /// The character `n` places after the one [`Self::peek`] sees.
    pub fn peek_ahead(&self, n: usize) -> (r: Option<char>)
        requires
            self.wf(),
            n < usize::MAX - 1,
        ensures
            self.pos() + 1 + n < self.src().len() ==> r == Option::Some(
                self.src()[self.pos() + 1 + n],
            ),
            self.pos() + 1 + n >= self.src().len() ==> r is None,
    {
        if self.position + 1 < self.input.len() && n < self.input.len() - (self.position + 1) {
            Option::Some(self.input[self.position + 1 + n])
        } else {
            Option::None
        }
    }

    /// Moves the cursor past the current character, keeping line and column
    /// in step.
    pub fn advance(&mut self)
        requires
            old(self).wf(),
            old(self).pos() < old(self).src().len(),
        ensures
            final(self).wf(),
            final(self).src() == old(self).src(),
            final(self).pos() == old(self).pos() + 1,
    {
        proof {
            lemma_position_bounds(self.input@, self.position as int);
        }
        if self.input[self.position] == '\n' {
            self.line = self.line + 1;
            self.column = 1;
        } else {
            self.column = self.column + 1;
        }
        self.position = self.position + 1;
    }

    /// Skips horizontal whitespace; newlines stay, they are tokens.
    pub fn skip_whitespace(&mut self)
        requires
            old(self).wf(),
        ensures
            final(self).wf(),
            final(self).src() == old(self).src(),
            final(self).pos() == skip_ws(old(self).src(), old(self).pos()),
    {
        loop
            invariant
                self.wf(),
                self.src() == old(self).src(),
                skip_ws(self.src(), self.pos()) == skip_ws(old(self).src(), old(self).pos()),
            ensures
                self.wf(),
                self.src() == old(self).src(),
                self.pos() == skip_ws(old(self).src(), old(self).pos()),
            decreases self.src().len() - self.pos(),
        {
            match self.current() {
                Option::Some(c) => {
                    if is_skippable(c) {
                        self.advance();
                    } else {
                        break;
                    }
                },
                Option::None => {
                    break;
                },
            }
        }
    }

    /// The text between two positions.
    fn text_range(&self, start: usize, end: usize) -> (r: String)
        requires
            start <= end <= self.src().len(),
        ensures
            r@ == self.src().subrange(start as int, end as int),
    {
        let mut out = String::new();
        let mut i = start;
        while i < end
            invariant
                start <= i <= end <= self.input@.len(),
                out@ =~= self.input@.subrange(start as int, i as int),
            decreases end - i,
        {
            push_char(&mut out, self.input[i]);
            i += 1;
            proof {
                assert(out@ =~= self.input@.subrange(start as int, i as int));
            }
        }
        out
    }

    /// Reads a `#` comment's text, up to but not including the newline.
    pub fn read_line_comment(&mut self) -> (r: String)
        requires
            old(self).wf(),
            old(self).pos() < old(self).src().len(),
            old(self).src()[old(self).pos()] == '#',
        ensures
            final(self).wf(),
            final(self).src() == old(self).src(),
            final(self).pos() == line_end(old(self).src(), old(self).pos() + 1),
            r@ == old(self).src().subrange(old(self).pos() + 1, final(self).pos()),
    {
        let ghost s = self.src();
        let ghost p0 = self.pos() + 1;
        self.advance();
        let mut comment = String::new();
        loop
            invariant
                self.wf(),
                self.src() == s,
                0 <= p0 <= self.pos() <= s.len(),
                line_end(s, self.pos()) == line_end(s, p0),
                comment@ =~= s.subrange(p0, self.pos()),
                forall|j: int| p0 <= j < self.pos() ==> s[j] != '\n',
            ensures
                self.wf(),
                self.src() == s,
                self.pos() == line_end(s, p0),
                comment@ =~= s.subrange(p0, self.pos()),
            decreases s.len() - self.pos(),
        {
            match self.current() {
                Option::Some(c) => {
                    if c == '\n' {
                        break;
                    }
                    push_char(&mut comment, c);
                    self.advance();
                    proof {
                        assert(comment@ =~= s.subrange(p0, self.pos()));
                    }
                },
                Option::None => {
                    break;
                },
            }
        }
        comment
    }

    /// Reads a `/* … */` comment's text. The first `*/` closes it; text that
    /// never closes runs to the end.
    pub fn read_block_comment(&mut self) -> (r: String)
        requires
            old(self).wf(),
            old(self).pos() + 1 < old(self).src().len(),
            old(self).src()[old(self).pos()] == '/',
            old(self).src()[old(self).pos() + 1] == '*',
        ensures
            final(self).wf(),
            final(self).src() == old(self).src(),
            r@ == old(self).src().subrange(old(self).pos() + 2, bc_end(old(self).src(), old(self).pos() + 2)),
            final(self).pos() == ({
                let stop = bc_end(old(self).src(), old(self).pos() + 2);
                if stop < old(self).src().len() {
                    stop + 2
                } else {
                    stop
                }
            }),
    {
        let ghost s = self.src();
        let ghost p0 = self.pos() + 2;
        self.advance();
        self.advance();
        let mut comment = String::new();
        loop
            invariant_except_break
                bc_end(s, self.pos()) == bc_end(s, p0),
                comment@ =~= s.subrange(p0, self.pos()),
            invariant
                self.wf(),
                self.src() == s,
                0 <= p0 <= self.pos() <= s.len(),
            ensures
                self.wf(),
                self.src() == s,
                comment@ =~= s.subrange(p0, bc_end(s, p0)),
                self.pos() == (if bc_end(s, p0) < s.len() {
                    bc_end(s, p0) + 2
                } else {
                    bc_end(s, p0)
                }),
            decreases s.len() - self.pos(),
        {
            match self.current() {
                Option::Some(c) => {
                    let two = c == '*' && match self.peek() {
                        Option::Some(n) => n == '/',
                        Option::None => false,
                    };
                    if two {
                        proof {
                            assert(bc_end(s, self.pos()) == self.pos());
                            assert(comment@ =~= s.subrange(p0, bc_end(s, p0)));
                        }
                        self.advance();
                        self.advance();
                        break;
                    }
                    push_char(&mut comment, c);
                    self.advance();
                    proof {
                        assert(comment@ =~= s.subrange(p0, self.pos()));
                    }
                },
                Option::None => {
                    break;
                },
            }
        }
        comment
    }

    /// Reads a numeric literal: an integer, or a float when a dot followed
    /// by a digit promotes it. Integer text too large for the integer type
    /// becomes an error token.
    fn read_number(&mut self) -> (r: Token)
        requires
            old(self).wf(),
            old(self).pos() < old(self).src().len(),
            digit_char_p(old(self).src()[old(self).pos()]),
        ensures
            final(self).wf(),
            final(self).src() == old(self).src(),
            token_matches(
                old(self).src(),
                old(self).pos(),
                r.token_type,
                final(self).pos(),
                r.length as int,
            ),
            r.line == line_at(old(self).src(), old(self).pos()),
            r.column == col_at(old(self).src(), old(self).pos()),
    {
        let ghost s = self.src();
        let ghost p0 = self.pos();
        let start = self.position;
        let start_line = self.line;
        let start_column = self.column;
        self.scan_digits();
        let d1 = self.position;
        proof {
            assert(digit_end(s, p0) == digit_end(s, p0 + 1));
        }
        let dot_digit = match self.current() {
            Option::Some(c) => c == '.' && match self.peek() {
                Option::Some(n) => is_digit_char(n),
                Option::None => false,
            },
            Option::None => false,
        };
        if dot_digit {
            self.advance();
            self.scan_digits();
            let d2 = self.position;
            proof {
                assert(digit_end(s, d1 + 1) == digit_end(s, d1 + 2));
            }
            let text = self.text_range(start, d2);
            return Token::new(
                TokenType::Float(text),
                start_line,
                start_column,
                d2 - start,
            );
        }
        let ghost digits = s.subrange(p0, d1 as int);
        let mut value: i64 = 0;
        let mut overflow = false;
        let mut i = start;
        proof {
            assert(s.subrange(p0, start as int) =~= Seq::<char>::empty());
        }
        while i < d1
            invariant
                self.wf(),
                self.src() == s,
                0 <= p0,
                start <= i <= d1 <= s.len(),
                p0 == start as int,
                d1 as int == digit_end(s, p0 + 1),
                forall|j: int| p0 <= j < d1 ==> digit_char_p(#[trigger] s[j]),
                !overflow ==> value == str_to_int(s.subrange(p0, i as int)) && value >= 0,
                overflow ==> str_to_int(s.subrange(p0, d1 as int)) > i64::MAX,
            decreases d1 - i,
        {
            let c = self.input[i];
            proof {
                assert(digit_char_p(s[i as int]));
                assert('0' <= c <= '9');
            }
            let d = (c as u32) - 48;
            proof {
                assert(d <= 9);
                assert(s.subrange(p0, i as int + 1).drop_last() =~= s.subrange(p0, i as int));
                assert(s.subrange(p0, i as int + 1).last() == s[i as int]);
            }
            if !overflow {
                if value > (i64::MAX - (d as i64)) / 10 {
                    overflow = true;
                    proof {
                        assert(str_to_int(s.subrange(p0, i as int + 1)) > i64::MAX) by {
                            let x = str_to_int(s.subrange(p0, i as int));
                            assert(x == value);
                            assert(x > (i64::MAX - (d as i64)) / 10 ==> 10 * x + d > i64::MAX)
                                by (nonlinear_arith);
                        }
                        lemma_str_to_int_grows(s, p0, i as int + 1, d1 as int);
                    }
                } else {
                    proof {
                        let x = str_to_int(s.subrange(p0, i as int));
                        assert(x == value);
                        assert(x <= (i64::MAX - (d as i64)) / 10 ==> 10 * x + d <= i64::MAX)
                            by (nonlinear_arith);
                    }
                    value = value * 10 + (d as i64);
                }
            }
            i += 1;
        }
        if overflow {
            let text = self.text_range(start, d1);
            let msg = String::from_str("Invalid integer: ").concat(text.as_str());
            return Token::error(msg, start_line, start_column);
        }
        Token::new(TokenType::Integer(value), start_line, start_column, d1 - start)
    }

    /// Moves the cursor past a run of digits.
    fn scan_digits(&mut self)
        requires
            old(self).wf(),
        ensures
            final(self).wf(),
            final(self).src() == old(self).src(),
            final(self).pos() == digit_end(old(self).src(), old(self).pos()),
            old(self).pos() <= final(self).pos(),
            forall|j: int|
                old(self).pos() <= j < final(self).pos() ==> digit_char_p(
                    #[trigger] old(self).src()[j],
                ),
    {
        let ghost s = self.src();
        let ghost p0 = self.pos();
        loop
            invariant
                self.wf(),
                self.src() == s,
                0 <= p0 <= self.pos() <= s.len(),
                digit_end(s, self.pos()) == digit_end(s, p0),
                forall|j: int| p0 <= j < self.pos() ==> digit_char_p(#[trigger] s[j]),
            ensures
                self.wf(),
                self.src() == s,
                self.pos() == digit_end(s, p0),
                forall|j: int| p0 <= j < self.pos() ==> digit_char_p(#[trigger] s[j]),
            decreases s.len() - self.pos(),
        {
            match self.current() {
                Option::Some(c) => {
                    if is_digit_char(c) {
                        self.advance();
                    } else {
                        break;
                    }
                },
                Option::None => {
                    break;
                },
            }
        }
    }

    /// Reads an identifier or keyword.
    fn read_identifier(&mut self) -> (r: Token)
        requires
            old(self).wf(),
            old(self).pos() < old(self).src().len(),
            ident_start_char(old(self).src()[old(self).pos()]),
        ensures
            final(self).wf(),
            final(self).src() == old(self).src(),
            token_matches(
                old(self).src(),
                old(self).pos(),
                r.token_type,
                final(self).pos(),
                r.length as int,
            ),
            r.line == line_at(old(self).src(), old(self).pos()),
            r.column == col_at(old(self).src(), old(self).pos()),
    {
        let ghost s = self.src();
        let ghost p0 = self.pos();
        let start = self.position;
        let start_line = self.line;
        let start_column = self.column;
        loop
            invariant
                self.wf(),
                self.src() == s,
                0 <= p0 <= self.pos() <= s.len(),
                p0 == start as int,
                ident_end(s, self.pos()) == ident_end(s, p0),
            ensures
                self.wf(),
                self.src() == s,
                self.pos() == ident_end(s, p0),
                self.pos() >= p0,
            decreases s.len() - self.pos(),
        {
            match self.current() {
                Option::Some(c) => {
                    if is_ident_char(c) {
                        self.advance();
                    } else {
                        break;
                    }
                },
                Option::None => {
                    break;
                },
            }
        }
        let e = self.position;
        let word = self.text_range(start, e);
        let token_type = keyword_or_identifier(word.as_str());
        proof {
            assert(ident_end(s, p0) == ident_end(s, p0 + 1));
        }
        Token::new(token_type, start_line, start_column, e - start)
    }

    /// Reads a double-quoted string literal, processing backslash escapes.
    fn read_string(&mut self) -> (r: Token)
        requires
            old(self).wf(),
            old(self).pos() < old(self).src().len(),
            old(self).src()[old(self).pos()] == '"',
        ensures
            final(self).wf(),
            final(self).src() == old(self).src(),
            token_matches(
                old(self).src(),
                old(self).pos(),
                r.token_type,
                final(self).pos(),
                r.length as int,
            ),
            r.line == line_at(old(self).src(), old(self).pos()),
            r.column == col_at(old(self).src(), old(self).pos()),
    {
        let ghost s = self.src();
        let ghost p0 = self.pos();
        let start_line = self.line;
        let start_column = self.column;
        self.advance();
        let mut acc = String::new();
        proof {
            lemma_dq_scan_bounds(s, p0 + 1);
        }
        let mut terminated = false;
        loop
            invariant_except_break
                match dq_scan(s, self.pos()) {
                    Option::Some(r2) => dq_scan(s, p0 + 1) == Option::Some(
                        (acc@ + r2.0, r2.1),
                    ),
                    Option::None => dq_scan(s, p0 + 1) is None,
                },
                !terminated,
            invariant
                self.wf(),
                self.src() == s,
                0 <= p0 + 1 <= self.pos() <= s.len(),
            ensures
                self.wf(),
                self.src() == s,
                terminated ==> (dq_scan(s, p0 + 1) matches Option::Some(r2) && acc@ == r2.0
                    && self.pos() == r2.1),
                !terminated ==> dq_scan(s, p0 + 1) is None && self.pos() == s.len(),
            decreases s.len() - self.pos(),
        {
            match self.current() {
                Option::Some(c) => {
                    if c == '"' {
                        proof {
                            assert(acc@ + Seq::<char>::empty() =~= acc@);
                        }
                        self.advance();
                        terminated = true;
                        break;
                    } else if c == '\\' {
                        self.advance();
                        match self.current() {
                            Option::Some(escaped) => {
                                let ghost acc0 = acc@;
                                if escaped == 'n' {
                                    push_char(&mut acc, '\n');
                                } else if escaped == 't' {
                                    push_char(&mut acc, '\t');
                                } else if escaped == 'r' {
                                    push_char(&mut acc, '\r');
                                } else if escaped == '\\' {
                                    push_char(&mut acc, '\\');
                                } else if escaped == '"' {
                                    push_char(&mut acc, '"');
                                } else if escaped == '\'' {
                                    push_char(&mut acc, '\'');
                                } else {
                                    push_char(&mut acc, '\\');
                                    push_char(&mut acc, escaped);
                                }
                                self.advance();
                                proof {
                                    assert(acc@ =~= acc0 + escape_expansion(escaped));
                                    match dq_scan(s, self.pos()) {
                                        Option::Some(r2) => {
                                            assert((acc0 + escape_expansion(escaped)) + r2.0
                                                =~= acc0 + (escape_expansion(escaped) + r2.0));
                                        },
                                        Option::None => {},
                                    }
                                }
                            },
                            Option::None => {},
                        }
                    } else {
                        let ghost acc0 = acc@;
                        push_char(&mut acc, c);
                        self.advance();
                        proof {
                            assert(acc@ =~= acc0 + seq![c]);
                            match dq_scan(s, self.pos()) {
                                Option::Some(r2) => {
                                    assert((acc0 + seq![c]) + r2.0 =~= acc0 + (seq![c] + r2.0));
                                },
                                Option::None => {},
                            }
                        }
                    }
                },
                Option::None => {
                    break;
                },
            }
        }
        if terminated {
            let vlen = acc.as_str().unicode_len();
            Token::new(TokenType::String(acc), start_line, start_column, vlen + 2)
        } else {
            Token::error(String::from_str("Unterminated string"), start_line, start_column)
        }
    }

    /// Reads a single-quoted string literal; no escape processing.
    fn read_single_quote_string(&mut self) -> (r: Token)
        requires
            old(self).wf(),
            old(self).pos() < old(self).src().len(),
            old(self).src()[old(self).pos()] == '\'',
        ensures
            final(self).wf(),
            final(self).src() == old(self).src(),
            token_matches(
                old(self).src(),
                old(self).pos(),
                r.token_type,
                final(self).pos(),
                r.length as int,
            ),
            r.line == line_at(old(self).src(), old(self).pos()),
            r.column == col_at(old(self).src(), old(self).pos()),
    {
        let ghost s = self.src();
        let ghost p0 = self.pos();
        let start = self.position;
        let start_line = self.line;
        let start_column = self.column;
        self.advance();
        proof {
            lemma_sq_end_bounds(s, p0 + 1);
        }
        loop
            invariant
                self.wf(),
                self.src() == s,
                0 <= p0 + 1 <= self.pos() <= s.len(),
                sq_end(s, self.pos()) == sq_end(s, p0 + 1),
            ensures
                self.wf(),
                self.src() == s,
                self.pos() == sq_end(s, p0 + 1),
            decreases s.len() - self.pos(),
        {
            match self.current() {
                Option::Some(c) => {
                    if c == '\'' {
                        break;
                    }
                    self.advance();
                },
                Option::None => {
                    break;
                },
            }
        }
        let e = self.position;
        if e < self.input.len() {
            let value = self.text_range(start + 1, e);
            self.advance();
            Token::new(
                TokenType::String(value),
                start_line,
                start_column,
                (e - (start + 1)) + 2,
            )
        } else {
            Token::error(
                String::from_str("Unterminated string"),
                start_line,
                start_column,
            )
        }
    }

    /// Reads a `$( … )` capture, tracking nested parentheses.
    fn read_command(&mut self) -> (r: Token)
        requires
            old(self).wf(),
            old(self).pos() + 1 < old(self).src().len(),
            old(self).src()[old(self).pos()] == '$',
            old(self).src()[old(self).pos() + 1] == '(',
        ensures
            final(self).wf(),
            final(self).src() == old(self).src(),
            token_matches(
                old(self).src(),
                old(self).pos(),
                r.token_type,
                final(self).pos(),
                r.length as int,
            ),
            r.line == line_at(old(self).src(), old(self).pos()),
            r.column == col_at(old(self).src(), old(self).pos()),
    {
        let ghost s = self.src();
        let ghost p0 = self.pos();
        let start = self.position;
        let start_line = self.line;
        let start_column = self.column;
        self.advance();
        self.advance();
        proof {
            lemma_cmd_end_bounds(s, p0 + 2, 1);
        }
        let mut count: usize = 1;
        let mut terminated = false;
        loop
            invariant_except_break
                1 <= count,
                count as int <= self.pos() - p0 - 1,
                cmd_end(s, self.pos(), count as int) == cmd_end(s, p0 + 2, 1),
                !terminated,
            invariant
                self.wf(),
                self.src() == s,
                0 <= p0 + 2 <= self.pos() <= s.len(),
            ensures
                self.wf(),
                self.src() == s,
                terminated ==> (cmd_end(s, p0 + 2, 1) matches Option::Some(e) && self.pos() == e
                    && p0 + 2 < e),
                !terminated ==> cmd_end(s, p0 + 2, 1) is None && self.pos() == s.len(),
            decreases s.len() - self.pos(),
        {
            match self.current() {
                Option::Some(c) => {
                    if c == ')' && count == 1 {
                        self.advance();
                        terminated = true;
                        break;
                    }
                    if c == '(' {
                        count += 1;
                    } else if c == ')' {
                        count -= 1;
                    }
                    self.advance();
                },
                Option::None => {
                    break;
                },
            }
        }
        if terminated {
            let e = self.position;
            let value = self.text_range(start + 2, e - 1);
            Token::new(
                TokenType::Command(value),
                start_line,
                start_column,
                ((e - 1) - (start + 2)) + 3,
            )
        } else {
            Token::error(String::from_str("Unterminated command"), start_line, start_column)
        }
    }

    /// Whether the character after the current one is `c`.
    fn peek_is(&self, c: char) -> (r: bool)
        requires
            self.wf(),
        ensures
            r == (self.pos() + 1 < self.src().len() && self.src()[self.pos() + 1] == c),
    {
        match self.peek() {
            Option::Some(n) => n == c,
            Option::None => false,
        }
    }

    /// Scans the next token: skips horizontal whitespace, then produces the
    /// token that [`token_matches`] specifies at that position, stamped with
    /// the line and column where it starts.
    pub fn next_token(&mut self) -> (r: Token)
        requires
            old(self).wf(),
        ensures
            final(self).wf(),
            final(self).src() == old(self).src(),
            ({
                let s = old(self).src();
                let p = skip_ws(s, old(self).pos());
                &&& token_matches(s, p, r.token_type, final(self).pos(), r.length as int)
                &&& r.line as int == line_at(s, p)
                &&& r.column as int == col_at(s, p)
            }),
    {
        let ghost s = self.src();
        let ghost q0 = self.pos();
        self.skip_whitespace();
        proof {
            lemma_skip_ws_bounds(s, q0);
        }
        let start_line = self.line;
        let start_column = self.column;
        match self.current() {
            Option::None => Token::eof(start_line, start_column),
            Option::Some(c) => {
                if c == '\n' {
                    self.advance();
                    Token::new(TokenType::Newline, start_line, start_column, 1)
                } else if c == '#' {
                    proof {
                        lemma_line_end_bounds(s, self.pos() + 1);
                    }
                    let m = self.read_line_comment();
                    let len = m.as_str().unicode_len();
                    Token::new(TokenType::Comment(m), start_line, start_column, len)
                } else if c == '/' && self.peek_is('*') {
                    proof {
                        lemma_bc_end_bounds(s, self.pos() + 2);
                    }
                    let m = self.read_block_comment();
                    let len = m.as_str().unicode_len();
                    Token::new(TokenType::Comment(m), start_line, start_column, len)
                } else if is_digit_char(c) {
                    self.read_number()
                } else if is_ident_start_char(c) {
                    self.read_identifier()
                } else if c == '"' {
                    self.read_string()
                } else if c == '\'' {
                    self.read_single_quote_string()
                } else if c == '$' && self.peek_is('(') {
                    self.read_command()
                } else if c == '$' && self.peek_is('{') {
                    self.advance();
                    self.advance();
                    Token::new(TokenType::InterpolationStart, start_line, start_column, 2)
                } else if c == '+' {
                    if self.peek_is('=') {
                        self.advance();
                        self.advance();
                        Token::new(TokenType::PlusAssign, start_line, start_column, 2)
                    } else {
                        self.advance();
                        Token::new(TokenType::Plus, start_line, start_column, 1)
                    }
                } else if c == '-' {
                    if self.peek_is('=') {
                        self.advance();
                        self.advance();
                        Token::new(TokenType::MinusAssign, start_line, start_column, 2)
                    } else if self.peek_is('>') {
                        self.advance();
                        self.advance();
                        Token::new(TokenType::Arrow, start_line, start_column, 2)
                    } else {
                        self.advance();
                        Token::new(TokenType::Minus, start_line, start_column, 1)
                    }
                } else if c == '*' {
                    if self.peek_is('*') {
                        self.advance();
                        self.advance();
                        Token::new(TokenType::Power, start_line, start_column, 2)
                    } else {
                        self.advance();
                        Token::new(TokenType::Multiply, start_line, start_column, 1)
                    }
                } else if c == '/' {
                    self.advance();
                    Token::new(TokenType::Divide, start_line, start_column, 1)
                } else if c == '%' {
                    self.advance();
                    Token::new(TokenType::Modulo, start_line, start_column, 1)
                } else if c == '=' {
                    if self.peek_is('=') {
                        self.advance();
                        self.advance();
                        Token::new(TokenType::Equal, start_line, start_column, 2)
                    } else {
                        self.advance();
                        Token::new(TokenType::Assign, start_line, start_column, 1)
                    }
                } else if c == '!' {
                    if self.peek_is('=') {
                        self.advance();
                        self.advance();
                        Token::new(TokenType::NotEqual, start_line, start_column, 2)
                    } else {
                        self.advance();
                        Token::new(TokenType::Not, start_line, start_column, 1)
                    }
                } else if c == '<' {
                    if self.peek_is('=') {
                        self.advance();
                        self.advance();
                        Token::new(TokenType::LessEqual, start_line, start_column, 2)
                    } else if self.peek_is('<') {
                        self.advance();
                        self.advance();
                        Token::new(TokenType::LeftShift, start_line, start_column, 2)
                    } else {
                        self.advance();
                        Token::new(TokenType::Less, start_line, start_column, 1)
                    }
                } else if c == '>' {
                    if self.peek_is('=') {
                        self.advance();
                        self.advance();
                        Token::new(TokenType::GreaterEqual, start_line, start_column, 2)
                    } else if self.peek_is('>') {
                        self.advance();
                        self.advance();
                        Token::new(TokenType::RightShift, start_line, start_column, 2)
                    } else {
                        self.advance();
                        Token::new(TokenType::Greater, start_line, start_column, 1)
                    }
                } else if c == '&' {
                    if self.peek_is('&') {
                        self.advance();
                        self.advance();
                        Token::new(TokenType::And, start_line, start_column, 2)
                    } else {
                        self.advance();
                        Token::new(TokenType::BitwiseAnd, start_line, start_column, 1)
                    }
                } else if c == '|' {
                    if self.peek_is('|') {
                        self.advance();
                        self.advance();
                        Token::new(TokenType::Or, start_line, start_column, 2)
                    } else if self.peek_is('>') {
                        self.advance();
                        self.advance();
                        Token::new(TokenType::Pipeline, start_line, start_column, 2)
                    } else {
                        self.advance();
                        Token::new(TokenType::BitwiseOr, start_line, start_column, 1)
                    }
                } else if c == '^' {
                    self.advance();
                    Token::new(TokenType::BitwiseXor, start_line, start_column, 1)
                } else if c == '~' {
                    self.advance();
                    Token::new(TokenType::BitwiseNot, start_line, start_column, 1)
                } else if c == ':' {
                    if self.peek_is('=') {
                        self.advance();
                        self.advance();
                        Token::new(TokenType::ColonAssign, start_line, start_column, 2)
                    } else {
                        self.advance();
                        Token::new(TokenType::Colon, start_line, start_column, 1)
                    }
                } else if c == '(' {
                    self.advance();
                    Token::new(TokenType::LeftParen, start_line, start_column, 1)
                } else if c == ')' {
                    self.advance();
                    Token::new(TokenType::RightParen, start_line, start_column, 1)
                } else if c == '{' {
                    self.advance();
                    Token::new(TokenType::LeftBrace, start_line, start_column, 1)
                } else if c == '}' {
                    self.advance();
                    Token::new(TokenType::RightBrace, start_line, start_column, 1)
                } else if c == '[' {
                    self.advance();
                    Token::new(TokenType::LeftBracket, start_line, start_column, 1)
                } else if c == ']' {
                    self.advance();
                    Token::new(TokenType::RightBracket, start_line, start_column, 1)
                } else if c == ',' {
                    self.advance();
                    Token::new(TokenType::Comma, start_line, start_column, 1)
                } else if c == ';' {
                    self.advance();
                    Token::new(TokenType::Semicolon, start_line, start_column, 1)
                } else if c == '.' {
                    self.advance();
                    Token::new(TokenType::Dot, start_line, start_column, 1)
                } else {
                    self.advance();
                    let mut msg = String::from_str("Unexpected character: '");
                    push_char(&mut msg, c);
                    push_char(&mut msg, '\'');
                    proof {
                        reveal_strlit("'");
                        assert(msg@ =~= "Unexpected character: '"@ + seq![c] + "'"@);
                    }
                    Token::error(msg, start_line, start_column)
                }
            },
        }
    }

    /// Scans the whole text: the token stream of the source from the
    /// cursor's position, ended by the one `EOF` token, which appears
    /// nowhere else.
    pub fn tokenize(&mut self) -> (r: Vec<Token>)
        requires
            old(self).wf(),
        ensures
            final(self).wf(),
            r@.len() >= 1,
            r@.last().token_type is EOF,
            forall|i: int| 0 <= i < r@.len() - 1 ==> !((#[trigger] r@[i]).token_type is EOF),
            stream_matches(old(self).src(), old(self).pos(), r@),
    {
        let ghost s = self.src();
        let ghost p0 = self.pos();
        let mut tokens: Vec<Token> = Vec::new();
        proof {
            assert forall|rest: Seq<Token>| stream_matches(s, self.pos(), rest) implies #[trigger] stream_matches(
                s,
                p0,
                tokens@ + rest,
            ) by {
                assert(tokens@ + rest =~= rest);
            }
        }
        loop
            invariant_except_break
                forall|i: int|
                    0 <= i < tokens@.len() ==> !((#[trigger] tokens@[i]).token_type is EOF),
                forall|rest: Seq<Token>|
                    stream_matches(s, self.pos(), rest) ==> #[trigger] stream_matches(
                        s,
                        p0,
                        tokens@ + rest,
                    ),
            invariant
                self.wf(),
                self.src() == s,
                0 <= p0 <= s.len(),
            ensures
                self.wf(),
                tokens@.len() >= 1,
                tokens@.last().token_type is EOF,
                forall|i: int|
                    0 <= i < tokens@.len() - 1 ==> !((#[trigger] tokens@[i]).token_type is EOF),
                stream_matches(s, p0, tokens@),
            decreases s.len() - self.pos() + 1,
        {
            let ghost before = self.pos();
            let ghost tokens0 = tokens@;
            let t = self.next_token();
            proof {
                lemma_skip_ws_bounds(s, before);
                if !(t.token_type is EOF) {
                    lemma_token_progress(
                        s,
                        skip_ws(s, before),
                        t.token_type,
                        self.pos(),
                        t.length as int,
                    );
                }
            }
            let is_eof = matches!(t.token_type, TokenType::EOF);
            tokens.push(t);
            if is_eof {
                proof {
                    let q = skip_ws(s, before);
                    lemma_token_end_agrees(s, q, t.token_type, self.pos(), t.length as int);
                    assert(seq![t].first() == t);
                    assert(stream_matches(s, before, seq![t]));
                    assert(stream_matches(s, p0, tokens0 + seq![t]));
                    assert(tokens@ =~= tokens0 + seq![t]);
                }
                break;
            }
            proof {
                let q = skip_ws(s, before);
                lemma_token_end_agrees(s, q, t.token_type, self.pos(), t.length as int);
                assert forall|rest: Seq<Token>| stream_matches(s, self.pos(), rest) implies #[trigger] stream_matches(
                    s,
                    p0,
                    tokens@ + rest,
                ) by {
                    assert((seq![t] + rest).first() == t);
                    assert((seq![t] + rest).drop_first() =~= rest);
                    assert(stream_matches(s, before, seq![t] + rest));
                    assert(stream_matches(s, p0, tokens0 + (seq![t] + rest)));
                    assert(tokens0 + (seq![t] + rest) =~= tokens@ + rest);
                }
            }
        }
        tokens
    }
}

/// A token other than `EOF` ends strictly after it starts: the scan always
/// moves forward.
proof fn lemma_token_progress(s: Seq<char>, p: int, t: TokenType, next: int, tlen: int)
    requires
        0 <= p <= s.len(),
        token_matches(s, p, t, next, tlen),
        !(t is EOF),
    ensures
        p < next <= s.len(),
{
    if p < s.len() {
        let c = s[p];
        lemma_line_end_bounds(s, p + 1);
        if c == '/' && p + 1 < s.len() && s[p + 1] == '*' {
            lemma_bc_end_bounds(s, p + 2);
        }
        if digit_char_p(c) {
            lemma_digit_end_bounds(s, p + 1);
            let d1 = digit_end(s, p + 1);
            if d1 < s.len() && s[d1] == '.' && d1 + 1 < s.len() && digit_char_p(s[d1 + 1]) {
                lemma_digit_end_bounds(s, d1 + 2);
            }
        }
        if ident_start_char(c) {
            lemma_ident_end_bounds(s, p + 1);
        }
        if c == '"' {
            lemma_dq_scan_bounds(s, p + 1);
        }
        if c == '\'' {
            lemma_sq_end_bounds(s, p + 1);
        }
        if c == '$' && p + 1 < s.len() && s[p + 1] == '(' {
            lemma_cmd_end_bounds(s, p + 2, 1);
        }
    }
}

} // verus!
