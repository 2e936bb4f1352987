//! The two token grammars the library works with.
//!
//! A coordinate is carried through the system as its decimal token, exactly
//! as it appeared in the descriptor, in an HTTP response, or in the cache
//! file.  Two grammars matter:
//!
//! * `is_float_token` — the strings accepted as a floating-point number by
//!   the language's standard parser: an optional sign, then `inf`,
//!   `infinity` or `nan` (case-insensitive), or a decimal mantissa with an
//!   optional exponent.
//! * `is_json_number` — the stricter JSON number grammar, which the cache
//!   file uses.  Every JSON number is also a float token.

use vstd::prelude::*;

verus! {

/// Is `c` a decimal digit?
pub open spec fn is_digit_char(c: char) -> bool {
    '0' <= c && c <= '9'
}

/// Is `c` a sign character?
pub open spec fn is_sign_char(c: char) -> bool {
    c == '+' || c == '-'
}

/// Case-insensitive character match, `b` being the lowercase reference.
/// Only the letters of `inf`, `infinity` and `nan` need an uppercase form.
pub open spec fn eq_ci(a: char, b: char) -> bool {
    ||| a == b
    ||| (a == 'A' && b == 'a')
    ||| (a == 'F' && b == 'f')
    ||| (a == 'I' && b == 'i')
    ||| (a == 'N' && b == 'n')
    ||| (a == 'T' && b == 't')
    ||| (a == 'Y' && b == 'y')
}

/// The rest of `s` from `off` matches the word `w`, case-insensitively.
pub open spec fn word_ci_at(s: Seq<char>, off: int, w: Seq<char>) -> bool {
    &&& s.len() - off == w.len()
    &&& forall|k: int| 0 <= k < w.len() ==> eq_ci(s[off + k], #[trigger] w[k])
}

/// The first index at or after `i` that does not hold a digit (clamped to
/// the end of `s`).
pub open spec fn digits_end(s: Seq<char>, i: int) -> int
    recommends
        0 <= i <= s.len(),
    decreases s.len() - i,
{
    if i < 0 || i >= s.len() || !is_digit_char(s[i]) {
        i
    } else {
        digits_end(s, i + 1)
    }
}

/// Basic bounds and content of `digits_end`.
pub proof fn lemma_digits_end(s: Seq<char>, i: int)
    requires
        0 <= i <= s.len(),
    ensures
        i <= digits_end(s, i) <= s.len(),
        forall|k: int| i <= k < digits_end(s, i) ==> is_digit_char(#[trigger] s[k]),
        digits_end(s, i) < s.len() ==> !is_digit_char(s[digits_end(s, i)]),
    decreases s.len() - i,
{
    if i < s.len() && is_digit_char(s[i]) {
        lemma_digits_end(s, i + 1);
    }
}

/// How many leading characters of `s` form a sign.
pub open spec fn sign_len(s: Seq<char>) -> int {
    if s.len() > 0 && is_sign_char(s[0]) {
        1
    } else {
        0
    }
}

/// From `i`, `s` holds an exponent part running to the end of the string:
/// `e` or `E`, an optional sign, then at least one digit.
pub open spec fn exp_at(s: Seq<char>, i: int) -> bool {
    &&& 0 <= i < s.len()
    &&& (s[i] == 'e' || s[i] == 'E')
    &&& {
        let j = if i + 1 < s.len() && is_sign_char(s[i + 1]) {
            i + 2
        } else {
            i + 1
        };
        j < s.len() && digits_end(s, j) == s.len()
    }
}

/// From `off`, `s` holds a decimal mantissa with an optional exponent,
/// running to the end of the string: digits, optionally a point with
/// further digits (at least one digit on one side of the point), then
/// optionally an exponent.
pub open spec fn mantissa_at(s: Seq<char>, off: int) -> bool {
    let d1 = digits_end(s, off);
    if d1 == s.len() {
        d1 > off
    } else if s[d1] == '.' {
        let d2 = digits_end(s, d1 + 1);
        &&& (d1 > off || d2 > d1 + 1)
        &&& (d2 == s.len() || exp_at(s, d2))
    } else {
        d1 > off && exp_at(s, d1)
    }
}

/// `s` is accepted by the standard floating-point parser: an optional
/// sign, then `inf`, `infinity` or `nan` in any letter case, or a decimal
/// mantissa with an optional exponent.
pub open spec fn is_float_token(s: Seq<char>) -> bool {
    let off = sign_len(s);
    ||| word_ci_at(s, off, seq!['i', 'n', 'f'])
    ||| word_ci_at(s, off, seq!['i', 'n', 'f', 'i', 'n', 'i', 't', 'y'])
    ||| word_ci_at(s, off, seq!['n', 'a', 'n'])
    ||| mantissa_at(s, off)
}

/// `s` is a JSON number: an optional minus sign, an integer part without a
/// superfluous leading zero, an optional fraction, an optional exponent.
pub open spec fn is_json_number(s: Seq<char>) -> bool {
    let off = if s.len() > 0 && s[0] == '-' {
        1int
    } else {
        0int
    };
    let d1 = digits_end(s, off);
    &&& d1 > off
    &&& (s[off] == '0' ==> d1 == off + 1)
    &&& {
        let p = if d1 < s.len() && s[d1] == '.' {
            digits_end(s, d1 + 1)
        } else {
            d1
        };
        &&& (d1 < s.len() && s[d1] == '.' ==> p > d1 + 1)
        &&& (p == s.len() || exp_at(s, p))
    }
}

/// Every JSON number is also accepted by the floating-point parser.
pub proof fn lemma_json_number_is_float_token(s: Seq<char>)
    requires
        is_json_number(s),
    ensures
        is_float_token(s),
{
    let off = if s.len() > 0 && s[0] == '-' {
        1int
    } else {
        0int
    };
    lemma_digits_end(s, off);
    assert(off == sign_len(s));
    let d1 = digits_end(s, off);
    if d1 < s.len() && s[d1] == '.' {
        lemma_digits_end(s, d1 + 1);
    }
    assert(mantissa_at(s, off));
}

/// Finds where the digits starting at `i` end.
pub fn scan_digits(s: &str, i: usize) -> (r: usize)
    requires
        i <= s@.len(),
    ensures
        r == digits_end(s@, i as int),
{
    let n = s.unicode_len();
    let mut j = i;
    loop
        invariant
            i <= j <= n,
            n == s@.len(),
            digits_end(s@, j as int) == digits_end(s@, i as int),
        decreases n - j,
    {
        if j == n {
            return j;
        }
        let c = s.get_char(j);
        if !('0' <= c && c <= '9') {
            return j;
        }
        j = j + 1;
    }
}

/// Case-insensitive comparison of one character, `b` being the lowercase
/// reference.
fn eq_ci_exec(a: char, b: char) -> (r: bool)
    ensures
        r == eq_ci(a, b),
{
    a == b || (a == 'A' && b == 'a') || (a == 'F' && b == 'f') || (a == 'I' && b == 'i') || (a
        == 'N' && b == 'n') || (a == 'T' && b == 't') || (a == 'Y' && b == 'y')
}

/// Does the rest of `s` from `off` match the word `w` case-insensitively?
fn check_word_ci(s: &str, off: usize, w: &str) -> (r: bool)
    requires
        off <= s@.len(),
    ensures
        r == word_ci_at(s@, off as int, w@),
{
    let n = s.unicode_len();
    let m = w.unicode_len();
    if n - off != m {
        return false;
    }
    let mut k: usize = 0;
    while k < m
        invariant
            0 <= k <= m,
            n == s@.len(),
            m == w@.len(),
            n - off == m,
            forall|q: int| 0 <= q < k ==> eq_ci(s@[off + q], #[trigger] w@[q]),
        decreases m - k,
    {
        if !eq_ci_exec(s.get_char(off + k), w.get_char(k)) {
            return false;
        }
        k = k + 1;
    }
    true
}

/// Is there an exponent part running from `i` to the end of `s`?
fn check_exp(s: &str, i: usize) -> (r: bool)
    requires
        i <= s@.len(),
    ensures
        r == exp_at(s@, i as int),
{
    let n = s.unicode_len();
    if i >= n {
        return false;
    }
    let c = s.get_char(i);
    if !(c == 'e' || c == 'E') {
        return false;
    }
    let j = if i + 1 < n {
        let c1 = s.get_char(i + 1);
        if c1 == '+' || c1 == '-' {
            i + 2
        } else {
            i + 1
        }
    } else {
        i + 1
    };
    j < n && scan_digits(s, j) == n
}

/// Does `s` parse as a floating-point number?
pub fn check_float_token(s: &str) -> (r: bool)
    ensures
        r == is_float_token(s@),
{
    let n = s.unicode_len();
    let off: usize = if n > 0 {
        let c = s.get_char(0);
        if c == '+' || c == '-' {
            1
        } else {
            0
        }
    } else {
        0
    };
    assert(off == sign_len(s@));
    proof {
        reveal_strlit("inf");
        reveal_strlit("infinity");
        reveal_strlit("nan");
        assert("inf"@ =~= seq!['i', 'n', 'f']);
        assert("infinity"@ =~= seq!['i', 'n', 'f', 'i', 'n', 'i', 't', 'y']);
        assert("nan"@ =~= seq!['n', 'a', 'n']);
    }
    if check_word_ci(s, off, "inf") || check_word_ci(s, off, "infinity") || check_word_ci(
        s,
        off,
        "nan",
    ) {
        return true;
    }
    // decimal mantissa with optional exponent
    let d1 = scan_digits(s, off);
    proof {
        lemma_digits_end(s@, off as int);
    }
    if d1 == n {
        return d1 > off;
    }
    let c = s.get_char(d1);
    if c == '.' {
        let d2 = scan_digits(s, d1 + 1);
        proof {
            lemma_digits_end(s@, d1 + 1);
        }
        if !(d1 > off || d2 > d1 + 1) {
            return false;
        }
        d2 == n || check_exp(s, d2)
    } else {
        d1 > off && check_exp(s, d1)
    }
}

/// Is `s` a JSON number?
pub fn check_json_number(s: &str) -> (r: bool)
    ensures
        r == is_json_number(s@),
{
    let n = s.unicode_len();
    let off: usize = if n > 0 && s.get_char(0) == '-' {
        1
    } else {
        0
    };
    let d1 = scan_digits(s, off);
    proof {
        lemma_digits_end(s@, off as int);
    }
    if d1 == off {
        return false;
    }
    if s.get_char(off) == '0' && d1 != off + 1 {
        return false;
    }
    let p = if d1 < n && s.get_char(d1) == '.' {
        let d2 = scan_digits(s, d1 + 1);
        proof {
            lemma_digits_end(s@, d1 + 1);
        }
        if d2 <= d1 + 1 {
            return false;
        }
        d2
    } else {
        d1
    };
    p == n || check_exp(s, p)
}

} // verus!
