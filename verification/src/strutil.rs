//! Small verified helpers for building and comparing strings, and the decimal
//! rendering used by error messages and value display.

use vstd::prelude::*;
use vstd::string::StrSliceExecFns;
use vstd::string::StringExecFns;

verus! {

/// Relies on String::push: appends one character to the end of the string.
#[verifier::external_body]
pub fn push_char(s: &mut String, c: char)
    ensures
        final(s)@ == old(s)@.push(c),
{
    s.push(c)
}

/// Relies on Rc::clone: the clone is the same shared value.
#[verifier::external_body]
pub fn rc_clone<T>(rc: &std::rc::Rc<T>) -> (r: std::rc::Rc<T>)
    ensures
        r == *rc,
{
    std::rc::Rc::clone(rc)
}

/// True exactly when the two strings hold the same characters.
pub fn str_eq(a: &str, b: &str) -> (r: bool)
    ensures
        r == (a@ == b@),
{
    let sa = String::from_str(a);
    let sb = String::from_str(b);
    sa == sb
}

/// The decimal digit for `d`.
pub open spec fn digit_char(d: int) -> char {
    if d == 0 {
        '0'
    } else if d == 1 {
        '1'
    } else if d == 2 {
        '2'
    } else if d == 3 {
        '3'
    } else if d == 4 {
        '4'
    } else if d == 5 {
        '5'
    } else if d == 6 {
        '6'
    } else if d == 7 {
        '7'
    } else if d == 8 {
        '8'
    } else {
        '9'
    }
}

/// The decimal rendering of a non-negative integer, most significant digit first.
pub open spec fn dec_str(n: int) -> Seq<char>
    decreases n,
{
    if n < 10 {
        seq![digit_char(n)]
    } else {
        dec_str(n / 10).push(digit_char(n % 10))
    }
}

/// The decimal rendering of a signed integer.
pub open spec fn int_str(n: int) -> Seq<char> {
    if n < 0 {
        seq!['-'] + dec_str(-n)
    } else {
        dec_str(n)
    }
}

fn digit_char_exec(d: u64) -> (c: char)
    requires
        d < 10,
    ensures
        c == digit_char(d as int),
{
    if d == 0 {
        '0'
    } else if d == 1 {
        '1'
    } else if d == 2 {
        '2'
    } else if d == 3 {
        '3'
    } else if d == 4 {
        '4'
    } else if d == 5 {
        '5'
    } else if d == 6 {
        '6'
    } else if d == 7 {
        '7'
    } else if d == 8 {
        '8'
    } else {
        '9'
    }
}

/// Renders `n` in decimal.
pub fn u64_to_string(n: u64) -> (s: String)
    ensures
        s@ == dec_str(n as int),
{
    let mut s = String::new();
    let mut m = n;
    loop
        invariant_except_break
            (s@.len() == 0 && m == n) || (m > 0 && dec_str(n as int) =~= dec_str(m as int) + s@),
        ensures
            s@ =~= dec_str(n as int),
        decreases m,
    {
        let d = m % 10;
        let c = digit_char_exec(d);
        let mut t = String::new();
        push_char(&mut t, c);
        proof {
            assert(t@ =~= seq![digit_char(d as int)]);
        }
        let prev = m;
        m = m / 10;
        proof {
            if prev >= 10 {
                assert(dec_str(prev as int) == dec_str(prev as int / 10).push(
                    digit_char(prev as int % 10),
                ));
                assert(dec_str(prev as int) =~= dec_str(m as int) + t@);
            } else {
                assert(dec_str(prev as int) =~= t@);
            }
        }
        let sc = t.concat(s.as_str());
        s = sc;
        if m == 0 {
            proof {
                assert(s@ =~= dec_str(n as int));
            }
            break;
        }
        proof {
            assert(dec_str(n as int) =~= dec_str(m as int) + s@);
        }
    }
    s
}

/// Renders `n` in decimal, with a leading minus sign when it is negative.
pub fn i64_to_string(n: i64) -> (s: String)
    ensures
        s@ == int_str(n as int),
{
    if n >= 0 {
        u64_to_string(n as u64)
    } else {
        let mag: u64 = if n == i64::MIN {
            9223372036854775808u64
        } else {
            (-n) as u64
        };
        let digits = u64_to_string(mag);
        let mut s = String::new();
        push_char(&mut s, '-');
        proof {
            assert(s@ =~= seq!['-']);
        }
        let r = s.concat(digits.as_str());
        proof {
            assert(r@ =~= int_str(n as int));
        }
        r
    }
}

} // verus!
