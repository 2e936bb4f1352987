//! The JSON shapes the library reads and writes.
//!
//! Three documents matter: the IP-geolocation response (an object with
//! numeric `latitude` and `longitude` fields), the geocoding response (an
//! array of candidate objects with string `lat` and `lon` fields), and the
//! cache file (an object whose `data` field maps names to coordinate
//! objects).  Each is parsed by a recursive-descent reader whose behaviour
//! is stated, position by position, by the spec functions in this module.
//!
//! The readers accept the escapes `\" \\ \/ \b \f \n \r \t`, and a `\u`
//! escape for code points below 0x80; unknown fields of any shape are
//! skipped, with nesting bounded by `JSON_DEPTH_LIMIT`.

use vstd::prelude::*;

use crate::errors::SunshineError;
use crate::locators::Location;
use crate::locators::LocationView;
use crate::numbers::digits_end;
use crate::numbers::is_json_number;
use crate::numbers::is_sign_char;
use crate::numbers::lemma_digits_end;
use crate::numbers::scan_digits;

verus! {

/// How deep a skipped value may nest before the document is rejected.
pub const JSON_DEPTH_LIMIT: usize = 128;

/// Is `c` JSON whitespace?
pub open spec fn is_ws_char(c: char) -> bool {
    c == ' ' || c == '\t' || c == '\n' || c == '\r'
}

/// The first index at or after `i` that does not hold whitespace (clamped
/// to the end of `s`).
pub open spec fn ws_end(s: Seq<char>, i: int) -> int
    recommends
        0 <= i <= s.len(),
    decreases s.len() - i,
{
    if i < 0 || i >= s.len() || !is_ws_char(s[i]) {
        i
    } else {
        ws_end(s, i + 1)
    }
}

/// Basic bounds of `ws_end`.
pub proof fn lemma_ws_end(s: Seq<char>, i: int)
    requires
        0 <= i <= s.len(),
    ensures
        i <= ws_end(s, i) <= s.len(),
    decreases s.len() - i,
{
    if i < s.len() && is_ws_char(s[i]) {
        lemma_ws_end(s, i + 1);
    }
}

/// Finds where the whitespace starting at `i` ends.
fn skip_ws(s: &str, i: usize) -> (r: usize)
    requires
        i <= s@.len(),
    ensures
        r == ws_end(s@, i as int),
        i <= r <= s@.len(),
{
    let n = s.unicode_len();
    let mut j = i;
    loop
        invariant
            i <= j <= n,
            n == s@.len(),
            ws_end(s@, j as int) == ws_end(s@, i as int),
        decreases n - j,
    {
        if j == n {
            return j;
        }
        let c = s.get_char(j);
        if !(c == ' ' || c == '\t' || c == '\n' || c == '\r') {
            return j;
        }
        j = j + 1;
    }
}

/// The value of a hexadecimal digit, or -1.
pub open spec fn hex_val(c: char) -> int {
    if c == '0' {
        0
    } else if c == '1' {
        1
    } else if c == '2' {
        2
    } else if c == '3' {
        3
    } else if c == '4' {
        4
    } else if c == '5' {
        5
    } else if c == '6' {
        6
    } else if c == '7' {
        7
    } else if c == '8' {
        8
    } else if c == '9' {
        9
    } else if c == 'a' || c == 'A' {
        10
    } else if c == 'b' || c == 'B' {
        11
    } else if c == 'c' || c == 'C' {
        12
    } else if c == 'd' || c == 'D' {
        13
    } else if c == 'e' || c == 'E' {
        14
    } else if c == 'f' || c == 'F' {
        15
    } else {
        -1
    }
}

/// The value of a hexadecimal digit, if it is one.
fn hex_digit_val(c: char) -> (r: Option<u8>)
    ensures
        match r {
            Some(v) => hex_val(c) == v as int && v < 16,
            None => hex_val(c) == -1,
        },
{
    match c {
        '0' => Some(0),
        '1' => Some(1),
        '2' => Some(2),
        '3' => Some(3),
        '4' => Some(4),
        '5' => Some(5),
        '6' => Some(6),
        '7' => Some(7),
        '8' => Some(8),
        '9' => Some(9),
        'a' | 'A' => Some(10),
        'b' | 'B' => Some(11),
        'c' | 'C' => Some(12),
        'd' | 'D' => Some(13),
        'e' | 'E' => Some(14),
        'f' | 'F' => Some(15),
        _ => None,
    }
}

/// What a string body decodes to, starting just after the opening quote at
/// `i - 1`: the decoded characters and the position just after the closing
/// quote.  Raw control characters are rejected; the escapes
/// `\" \\ \/ \b \f \n \r \t` are decoded, and `\u` escapes are accepted
/// for code points below 0x80.
pub open spec fn spec_str_tail(s: Seq<char>, i: int) -> Option<(Seq<char>, int)>
    decreases s.len() - i,
{
    if i < 0 || i >= s.len() {
        None
    } else if s[i] == '"' {
        Some((Seq::empty(), i + 1))
    } else if s[i] == '\\' {
        if i + 2 > s.len() {
            None
        } else {
            let c = s[i + 1];
            if c == '"' || c == '\\' || c == '/' {
                spec_str_cons(c, spec_str_tail(s, i + 2))
            } else if c == 'b' {
                spec_str_cons('\u{8}', spec_str_tail(s, i + 2))
            } else if c == 'f' {
                spec_str_cons('\u{c}', spec_str_tail(s, i + 2))
            } else if c == 'n' {
                spec_str_cons('\n', spec_str_tail(s, i + 2))
            } else if c == 'r' {
                spec_str_cons('\r', spec_str_tail(s, i + 2))
            } else if c == 't' {
                spec_str_cons('\t', spec_str_tail(s, i + 2))
            } else if c == 'u' {
                if s.len() - i < 6 {
                    None
                } else {
                    let v = hex_val(s[i + 2]) * 4096 + hex_val(s[i + 3]) * 256 + hex_val(
                        s[i + 4],
                    ) * 16 + hex_val(s[i + 5]);
                    if hex_val(s[i + 2]) >= 0 && hex_val(s[i + 3]) >= 0 && hex_val(s[i + 4]) >= 0
                        && hex_val(s[i + 5]) >= 0 && v < 0x80 {
                        spec_str_cons((v as u8) as char, spec_str_tail(s, i + 6))
                    } else {
                        None
                    }
                }
            } else {
                None
            }
        }
    } else if (s[i] as u32) < 0x20 {
        None
    } else {
        spec_str_cons(s[i], spec_str_tail(s, i + 1))
    }
}

/// Prepends a decoded character to the rest of a string body.
pub open spec fn spec_str_cons(c: char, rest: Option<(Seq<char>, int)>) -> Option<
    (Seq<char>, int),
> {
    match rest {
        None => None,
        Some((t, j)) => Some((seq![c] + t, j)),
    }
}

/// Appends exactly one character to a string.
///
/// Relies on String::push: the string grows by the pushed character.
#[verifier::external_body]
fn push_char(s: &mut String, c: char)
    ensures
        final(s)@ == old(s)@.push(c),
{
    s.push(c);
}

/// A one-character string.
fn char_string(c: char) -> (r: String)
    ensures
        r@ =~= seq![c],
{
    let mut out = String::new();
    push_char(&mut out, c);
    out
}

/// Decodes a string body, starting just after the opening quote.
fn parse_str_tail(s: &str, i: usize) -> (r: Option<(String, usize)>)
    requires
        i <= s@.len(),
    ensures
        match r {
            Some(t) => spec_str_tail(s@, i as int) == Some((t.0@, t.1 as int)) && i < t.1
                <= s@.len(),
            None => spec_str_tail(s@, i as int) is None,
        },
    decreases s@.len() - i,
{
    let n = s.unicode_len();
    if i >= n {
        return None;
    }
    let c0 = s.get_char(i);
    if c0 == '"' {
        return Some((String::new(), i + 1));
    }
    if c0 == '\\' {
        if n - i < 2 {
            return None;
        }
        let c = s.get_char(i + 1);
        let (dec, consumed): (char, usize) = if c == '"' || c == '\\' || c == '/' {
            (c, 2)
        } else if c == 'b' {
            ('\u{8}', 2)
        } else if c == 'f' {
            ('\u{c}', 2)
        } else if c == 'n' {
            ('\n', 2)
        } else if c == 'r' {
            ('\r', 2)
        } else if c == 't' {
            ('\t', 2)
        } else if c == 'u' {
            if n - i < 6 {
                return None;
            }
            let h0 = hex_digit_val(s.get_char(i + 2));
            let h1 = hex_digit_val(s.get_char(i + 3));
            let h2 = hex_digit_val(s.get_char(i + 4));
            let h3 = hex_digit_val(s.get_char(i + 5));
            match (h0, h1, h2, h3) {
                (Some(a), Some(b), Some(cc), Some(d)) => {
                    let v: usize = (a as usize) * 4096 + (b as usize) * 256 + (cc as usize) * 16 + (
                    d as usize);
                    if v < 0x80 {
                        ((v as u8) as char, 6)
                    } else {
                        return None;
                    }
                },
                _ => {
                    return None;
                },
            }
        } else {
            return None;
        };
        match parse_str_tail(s, i + consumed) {
            None => None,
            Some((tail, j)) => {
                let mut out = char_string(dec);
                out.append(tail.as_str());
                Some((out, j))
            },
        }
    } else if (c0 as u32) < 0x20 {
        None
    } else {
        match parse_str_tail(s, i + 1) {
            None => None,
            Some((tail, j)) => {
                let mut out = char_string(c0);
                out.append(tail.as_str());
                Some((out, j))
            },
        }
    }
}

/// Where the JSON number starting at `i` ends, if one starts there: an
/// optional minus sign, an integer part without a superfluous leading
/// zero, an optional fraction, an optional exponent.
pub open spec fn spec_num_token(s: Seq<char>, i: int) -> Option<int> {
    if i < 0 || i >= s.len() {
        None
    } else {
        let j = if s[i] == '-' {
            i + 1
        } else {
            i
        };
        let d1 = digits_end(s, j);
        if d1 == j {
            None
        } else if s[j] == '0' && d1 != j + 1 {
            None
        } else {
            let p = if d1 < s.len() && s[d1] == '.' {
                digits_end(s, d1 + 1)
            } else {
                d1
            };
            if d1 < s.len() && s[d1] == '.' && p == d1 + 1 {
                None
            } else if p < s.len() && (s[p] == 'e' || s[p] == 'E') {
                let q = if p + 1 < s.len() && is_sign_char(s[p + 1]) {
                    p + 2
                } else {
                    p + 1
                };
                let e = digits_end(s, q);
                if e == q {
                    None
                } else {
                    Some(e)
                }
            } else {
                Some(p)
            }
        }
    }
}

/// Scans the JSON number starting at `i`, if one starts there.
fn scan_num_token(s: &str, i: usize) -> (r: Option<usize>)
    requires
        i <= s@.len(),
    ensures
        match r {
            Some(e) => spec_num_token(s@, i as int) == Some(e as int) && i < e <= s@.len(),
            None => spec_num_token(s@, i as int) is None,
        },
{
    let n = s.unicode_len();
    if i >= n {
        return None;
    }
    let j = if s.get_char(i) == '-' {
        i + 1
    } else {
        i
    };
    let d1 = scan_digits(s, j);
    proof {
        lemma_digits_end(s@, j as int);
    }
    if d1 == j {
        return None;
    }
    if s.get_char(j) == '0' && d1 != j + 1 {
        return None;
    }
    let has_frac = d1 < n && s.get_char(d1) == '.';
    let p = if has_frac {
        let d2 = scan_digits(s, d1 + 1);
        proof {
            lemma_digits_end(s@, d1 + 1);
        }
        d2
    } else {
        d1
    };
    if has_frac && p == d1 + 1 {
        return None;
    }
    if p < n {
        let cp = s.get_char(p);
        if cp == 'e' || cp == 'E' {
            let q = if p + 1 < n {
                let c1 = s.get_char(p + 1);
                if c1 == '+' || c1 == '-' {
                    p + 2
                } else {
                    p + 1
                }
            } else {
                p + 1
            };
            let e = scan_digits(s, q);
            proof {
                lemma_digits_end(s@, q as int);
            }
            if e == q {
                return None;
            }
            return Some(e);
        }
    }
    Some(p)
}

/// Where the JSON value starting at `i` ends, if a well-formed one starts
/// there: a string, a number, one of the three literal words, or an array
/// or object nesting at most `depth` further levels.
pub open spec fn spec_skip_value(s: Seq<char>, i: int, depth: nat) -> Option<int>
    decreases depth, s.len() - i, 0int,
{
    if i < 0 || i >= s.len() {
        None
    } else if s[i] == '"' {
        match spec_str_tail(s, i + 1) {
            None => None,
            Some((t, j)) => Some(j),
        }
    } else if s[i] == 't' {
        if s.len() - i >= 4 && s[i + 1] == 'r' && s[i + 2] == 'u' && s[i + 3] == 'e' {
            Some(i + 4)
        } else {
            None
        }
    } else if s[i] == 'f' {
        if s.len() - i >= 5 && s[i + 1] == 'a' && s[i + 2] == 'l' && s[i + 3] == 's' && s[i + 4]
            == 'e' {
            Some(i + 5)
        } else {
            None
        }
    } else if s[i] == 'n' {
        if s.len() - i >= 4 && s[i + 1] == 'u' && s[i + 2] == 'l' && s[i + 3] == 'l' {
            Some(i + 4)
        } else {
            None
        }
    } else if s[i] == '[' {
        if depth == 0 {
            None
        } else {
            let j = ws_end(s, i + 1);
            if j < s.len() && s[j] == ']' {
                Some(j + 1)
            } else if j <= i || j > s.len() {
                None
            } else {
                spec_arr_items(s, j, (depth - 1) as nat)
            }
        }
    } else if s[i] == '{' {
        if depth == 0 {
            None
        } else {
            let j = ws_end(s, i + 1);
            if j < s.len() && s[j] == '}' {
                Some(j + 1)
            } else if j <= i || j > s.len() {
                None
            } else {
                spec_obj_items(s, j, (depth - 1) as nat)
            }
        }
    } else {
        spec_num_token(s, i)
    }
}

/// Where the rest of an array body ends, `i` standing on the first
/// character of an element.
pub open spec fn spec_arr_items(s: Seq<char>, i: int, depth: nat) -> Option<int>
    decreases depth, s.len() - i, 1int,
{
    match spec_skip_value(s, i, depth) {
        None => None,
        Some(j) => {
            let k = ws_end(s, j);
            if k >= s.len() {
                None
            } else if s[k] == ']' {
                Some(k + 1)
            } else if s[k] == ',' {
                let m = ws_end(s, k + 1);
                if m <= i || m > s.len() {
                    None
                } else {
                    spec_arr_items(s, m, depth)
                }
            } else {
                None
            }
        },
    }
}

/// Where the rest of an object body ends, `i` standing on the opening
/// quote of a key.
pub open spec fn spec_obj_items(s: Seq<char>, i: int, depth: nat) -> Option<int>
    decreases depth, s.len() - i, 1int,
{
    if i < 0 || i >= s.len() || s[i] != '"' {
        None
    } else {
        match spec_str_tail(s, i + 1) {
            None => None,
            Some((key, j)) => {
                let k = ws_end(s, j);
                if k >= s.len() || s[k] != ':' {
                    None
                } else {
                    let v = ws_end(s, k + 1);
                    if v <= i || v > s.len() {
                        None
                    } else {
                        match spec_skip_value(s, v, depth) {
                            None => None,
                            Some(e) => {
                                let w = ws_end(s, e);
                                if w >= s.len() {
                                    None
                                } else if s[w] == '}' {
                                    Some(w + 1)
                                } else if s[w] == ',' {
                                    let m = ws_end(s, w + 1);
                                    if m <= i || m > s.len() {
                                        None
                                    } else {
                                        spec_obj_items(s, m, depth)
                                    }
                                } else {
                                    None
                                }
                            },
                        }
                    }
                }
            },
        }
    }
}

/// Skips the JSON value starting at `i`.
fn skip_value(s: &str, i: usize, depth: usize) -> (r: Option<usize>)
    requires
        i <= s@.len(),
    ensures
        match r {
            Some(j) => spec_skip_value(s@, i as int, depth as nat) == Some(j as int) && i < j
                <= s@.len(),
            None => spec_skip_value(s@, i as int, depth as nat) is None,
        },
    decreases depth, s@.len() - i, 0int,
{
    let n = s.unicode_len();
    if i >= n {
        return None;
    }
    let c = s.get_char(i);
    if c == '"' {
        match parse_str_tail(s, i + 1) {
            None => None,
            Some((_t, j)) => Some(j),
        }
    } else if c == 't' {
        if n - i >= 4 && s.get_char(i + 1) == 'r' && s.get_char(i + 2) == 'u' && s.get_char(i + 3)
            == 'e' {
            Some(i + 4)
        } else {
            None
        }
    } else if c == 'f' {
        if n - i >= 5 && s.get_char(i + 1) == 'a' && s.get_char(i + 2) == 'l' && s.get_char(i + 3)
            == 's' && s.get_char(i + 4) == 'e' {
            Some(i + 5)
        } else {
            None
        }
    } else if c == 'n' {
        if n - i >= 4 && s.get_char(i + 1) == 'u' && s.get_char(i + 2) == 'l' && s.get_char(i + 3)
            == 'l' {
            Some(i + 4)
        } else {
            None
        }
    } else if c == '[' {
        if depth == 0 {
            return None;
        }
        let j = skip_ws(s, i + 1);
        if j < n && s.get_char(j) == ']' {
            Some(j + 1)
        } else if j <= i {
            None
        } else {
            arr_items(s, j, depth - 1)
        }
    } else if c == '{' {
        if depth == 0 {
            return None;
        }
        let j = skip_ws(s, i + 1);
        if j < n && s.get_char(j) == '}' {
            Some(j + 1)
        } else if j <= i {
            None
        } else {
            obj_items(s, j, depth - 1)
        }
    } else {
        scan_num_token(s, i)
    }
}

/// Skips the rest of an array body, `i` standing on the first character
/// of an element.
fn arr_items(s: &str, i: usize, depth: usize) -> (r: Option<usize>)
    requires
        i <= s@.len(),
    ensures
        match r {
            Some(j) => spec_arr_items(s@, i as int, depth as nat) == Some(j as int) && i < j
                <= s@.len(),
            None => spec_arr_items(s@, i as int, depth as nat) is None,
        },
    decreases depth, s@.len() - i, 1int,
{
    let n = s.unicode_len();
    match skip_value(s, i, depth) {
        None => None,
        Some(j) => {
            let k = skip_ws(s, j);
            if k >= n {
                None
            } else if s.get_char(k) == ']' {
                Some(k + 1)
            } else if s.get_char(k) == ',' {
                let m = skip_ws(s, k + 1);
                if m <= i {
                    None
                } else {
                    arr_items(s, m, depth)
                }
            } else {
                None
            }
        },
    }
}

/// Skips the rest of an object body, `i` standing on the opening quote of
/// a key.
fn obj_items(s: &str, i: usize, depth: usize) -> (r: Option<usize>)
    requires
        i <= s@.len(),
    ensures
        match r {
            Some(j) => spec_obj_items(s@, i as int, depth as nat) == Some(j as int) && i < j
                <= s@.len(),
            None => spec_obj_items(s@, i as int, depth as nat) is None,
        },
    decreases depth, s@.len() - i, 1int,
{
    let n = s.unicode_len();
    if i >= n || s.get_char(i) != '"' {
        return None;
    }
    match parse_str_tail(s, i + 1) {
        None => None,
        Some((_key, j)) => {
            let k = skip_ws(s, j);
            if k >= n || s.get_char(k) != ':' {
                return None;
            }
            let v = skip_ws(s, k + 1);
            if v <= i {
                return None;
            }
            match skip_value(s, v, depth) {
                None => None,
                Some(e) => {
                    let w = skip_ws(s, e);
                    if w >= n {
                        None
                    } else if s.get_char(w) == '}' {
                        Some(w + 1)
                    } else if s.get_char(w) == ',' {
                        let m = skip_ws(s, w + 1);
                        if m <= i {
                            None
                        } else {
                            obj_items(s, m, depth)
                        }
                    } else {
                        None
                    }
                },
            }
        },
    }
}

/// The key of the latitude field of the IP-geolocation response.
pub open spec fn key_latitude() -> Seq<char> {
    "latitude"@
}

/// The key of the longitude field of the IP-geolocation response.
pub open spec fn key_longitude() -> Seq<char> {
    "longitude"@
}

/// The key of the latitude field of a geocoding candidate and of a cache
/// entry.
pub open spec fn key_lat() -> Seq<char> {
    "lat"@
}

/// The key of the longitude field of a geocoding candidate.
pub open spec fn key_lon() -> Seq<char> {
    "lon"@
}

/// The key of the longitude field of a cache entry.
pub open spec fn key_long() -> Seq<char> {
    "long"@
}

/// The key under which the cache file holds its map.
pub open spec fn key_data() -> Seq<char> {
    "data"@
}

/// An optional string abstracted to its characters.
pub open spec fn view_opt_str(o: Option<String>) -> Option<Seq<char>> {
    match o {
        Some(s) => Some(s@),
        None => None,
    }
}

/// Walks the members of an object holding two tracked numeric fields,
/// `i` standing on the opening quote of a key.  The first occurrence of
/// `k1` and of `k2` must hold a number, whose token is taken; every other
/// member is skipped.  Yields the two tokens and the position after the
/// closing brace, and nothing unless both keys were present.
pub open spec fn spec_num_obj_items(
    s: Seq<char>,
    i: int,
    k1: Seq<char>,
    k2: Seq<char>,
    v1: Option<Seq<char>>,
    v2: Option<Seq<char>>,
) -> Option<(Seq<char>, Seq<char>, int)>
    decreases s.len() - i,
{
    if i < 0 || i >= s.len() || s[i] != '"' {
        None
    } else {
        match spec_str_tail(s, i + 1) {
            None => None,
            Some((key, j)) => {
                let k = ws_end(s, j);
                if k >= s.len() || s[k] != ':' {
                    None
                } else {
                    let v = ws_end(s, k + 1);
                    if v <= i || v > s.len() {
                        None
                    } else {
                        let want1 = key == k1 && v1 is None;
                        let want2 = key == k2 && v2 is None;
                        let stepped: Option<(Option<Seq<char>>, Option<Seq<char>>, int)> = if want1
                            || want2 {
                            match spec_num_token(s, v) {
                                None => None,
                                Some(e) => Some(
                                    (
                                        if want1 {
                                            Some(s.subrange(v, e))
                                        } else {
                                            v1
                                        },
                                        if want2 {
                                            Some(s.subrange(v, e))
                                        } else {
                                            v2
                                        },
                                        e,
                                    ),
                                ),
                            }
                        } else {
                            match spec_skip_value(s, v, JSON_DEPTH_LIMIT as nat) {
                                None => None,
                                Some(e) => Some((v1, v2, e)),
                            }
                        };
                        match stepped {
                            None => None,
                            Some((nv1, nv2, e)) => {
                                let w = ws_end(s, e);
                                if w >= s.len() {
                                    None
                                } else if s[w] == '}' {
                                    match (nv1, nv2) {
                                        (Some(t1), Some(t2)) => Some((t1, t2, w + 1)),
                                        _ => None,
                                    }
                                } else if s[w] == ',' {
                                    let m = ws_end(s, w + 1);
                                    if m <= i || m > s.len() {
                                        None
                                    } else {
                                        spec_num_obj_items(s, m, k1, k2, nv1, nv2)
                                    }
                                } else {
                                    None
                                }
                            },
                        }
                    }
                }
            },
        }
    }
}

/// An object with two tracked numeric fields, `i` standing on its opening
/// brace.
pub open spec fn spec_num_obj(s: Seq<char>, i: int, k1: Seq<char>, k2: Seq<char>) -> Option<
    (Seq<char>, Seq<char>, int),
> {
    if i < 0 || i >= s.len() || s[i] != '{' {
        None
    } else {
        let j = ws_end(s, i + 1);
        if j >= s.len() {
            None
        } else if s[j] == '}' {
            None
        } else {
            spec_num_obj_items(s, j, k1, k2, None, None)
        }
    }
}

/// What the IP-geolocation response body yields: the numeric `latitude`
/// and `longitude` tokens of the top-level object, additional fields
/// ignored.
pub open spec fn spec_ip_coords(s: Seq<char>) -> Option<(Seq<char>, Seq<char>)> {
    let i = ws_end(s, 0);
    match spec_num_obj(s, i, key_latitude(), key_longitude()) {
        None => None,
        Some((lat, long, e)) => if 0 <= e <= s.len() && ws_end(s, e) == s.len() {
            Some((lat, long))
        } else {
            None
        },
    }
}

/// What the IP-based network locator returns, given the transport
/// outcome: the transport failure unchanged, the parsed coordinates, or
/// `JsonError` when the body does not match the expected shape.
pub open spec fn spec_ip_result(o: Result<Seq<char>, SunshineError>) -> Result<
    LocationView,
    SunshineError,
> {
    match o {
        Err(e) => Err(e),
        Ok(body) => match spec_ip_coords(body) {
            Some((lat, long)) => Ok(LocationView { lat, long }),
            None => Err(SunshineError::JsonError),
        },
    }
}

/// Compares two strings character by character.
pub(crate) fn str_eq_chars(a: &str, b: &str) -> (r: bool)
    ensures
        r == (a@ == b@),
{
    let n = a.unicode_len();
    let m = b.unicode_len();
    if n != m {
        return false;
    }
    let mut i: usize = 0;
    while i < n
        invariant
            0 <= i <= n,
            n == a@.len(),
            m == b@.len(),
            n == m,
            forall|q: int| 0 <= q < i ==> a@[q] == b@[q],
        decreases n - i,
    {
        if a.get_char(i) != b.get_char(i) {
            return false;
        }
        i = i + 1;
    }
    proof {
        assert(a@ =~= b@);
    }
    true
}

/// Walks the members of an object holding two tracked numeric fields.
fn parse_num_obj_items(
    s: &str,
    i: usize,
    k1: &str,
    k2: &str,
    v1: Option<String>,
    v2: Option<String>,
) -> (r: Option<(String, String, usize)>)
    requires
        i <= s@.len(),
    ensures
        match r {
            Some(t) => spec_num_obj_items(
                s@,
                i as int,
                k1@,
                k2@,
                view_opt_str(v1),
                view_opt_str(v2),
            ) == Some((t.0@, t.1@, t.2 as int)) && i < t.2 <= s@.len(),
            None => spec_num_obj_items(
                s@,
                i as int,
                k1@,
                k2@,
                view_opt_str(v1),
                view_opt_str(v2),
            ) is None,
        },
    decreases s@.len() - i,
{
    let n = s.unicode_len();
    if i >= n || s.get_char(i) != '"' {
        return None;
    }
    let (key, j) = match parse_str_tail(s, i + 1) {
        None => {
            return None;
        },
        Some(t) => t,
    };
    let k = skip_ws(s, j);
    if k >= n || s.get_char(k) != ':' {
        return None;
    }
    let v = skip_ws(s, k + 1);
    if v <= i {
        return None;
    }
    let want1 = str_eq_chars(key.as_str(), k1) && v1.is_none();
    let want2 = str_eq_chars(key.as_str(), k2) && v2.is_none();
    let (nv1, nv2, e): (Option<String>, Option<String>, usize) = if want1 || want2 {
        match scan_num_token(s, v) {
            None => {
                return None;
            },
            Some(e) => {
                let tok = s.substring_char(v, e).to_owned();
                let n1 = if want1 {
                    Some(tok.clone())
                } else {
                    v1
                };
                let n2 = if want2 {
                    Some(tok)
                } else {
                    v2
                };
                (n1, n2, e)
            },
        }
    } else {
        match skip_value(s, v, JSON_DEPTH_LIMIT) {
            None => {
                return None;
            },
            Some(e) => (v1, v2, e),
        }
    };
    let w = skip_ws(s, e);
    if w >= n {
        return None;
    }
    if s.get_char(w) == '}' {
        return match (nv1, nv2) {
            (Some(t1), Some(t2)) => Some((t1, t2, w + 1)),
            _ => None,
        };
    }
    if s.get_char(w) == ',' {
        let m = skip_ws(s, w + 1);
        if m <= i {
            return None;
        }
        return parse_num_obj_items(s, m, k1, k2, nv1, nv2);
    }
    None
}

/// Reads an object with two tracked numeric fields, `i` standing on its
/// opening brace.
fn parse_num_obj(s: &str, i: usize, k1: &str, k2: &str) -> (r: Option<(String, String, usize)>)
    requires
        i <= s@.len(),
    ensures
        match r {
            Some(t) => spec_num_obj(s@, i as int, k1@, k2@) == Some((t.0@, t.1@, t.2 as int)) && i
                < t.2 <= s@.len(),
            None => spec_num_obj(s@, i as int, k1@, k2@) is None,
        },
{
    let n = s.unicode_len();
    if i >= n || s.get_char(i) != '{' {
        return None;
    }
    let j = skip_ws(s, i + 1);
    if j >= n {
        return None;
    }
    if s.get_char(j) == '}' {
        return None;
    }
    parse_num_obj_items(s, j, k1, k2, None, None)
}

/// Parses the IP-geolocation response body: an object with numeric
/// `latitude` and `longitude` fields, additional fields ignored.  Any
/// shape failure is `JsonError`.
pub fn parse_ip_body(body: &str) -> (r: Result<Location, SunshineError>)
    ensures
        match r {
            Ok(loc) => spec_ip_coords(body@) == Some((loc@.lat, loc@.long)),
            Err(e) => e == SunshineError::JsonError && spec_ip_coords(body@) is None,
        },
{
    let i = skip_ws(body, 0);
    match parse_num_obj(body, i, "latitude", "longitude") {
        None => Err(SunshineError::JsonError),
        Some((lat, long, e)) => {
            let t = skip_ws(body, e);
            if t == body.unicode_len() {
                Ok(Location { lat, long })
            } else {
                Err(SunshineError::JsonError)
            }
        },
    }
}

/// Walks the members of an object holding two tracked string fields,
/// `i` standing on the opening quote of a key.  The first occurrence of
/// `k1` and of `k2` must hold a string, whose decoded content is taken;
/// every other member is skipped.
pub open spec fn spec_str_obj_items(
    s: Seq<char>,
    i: int,
    k1: Seq<char>,
    k2: Seq<char>,
    v1: Option<Seq<char>>,
    v2: Option<Seq<char>>,
) -> Option<(Seq<char>, Seq<char>, int)>
    decreases s.len() - i,
{
    if i < 0 || i >= s.len() || s[i] != '"' {
        None
    } else {
        match spec_str_tail(s, i + 1) {
            None => None,
            Some((key, j)) => {
                let k = ws_end(s, j);
                if k >= s.len() || s[k] != ':' {
                    None
                } else {
                    let v = ws_end(s, k + 1);
                    if v <= i || v > s.len() {
                        None
                    } else {
                        let want1 = key == k1 && v1 is None;
                        let want2 = key == k2 && v2 is None;
                        let stepped: Option<(Option<Seq<char>>, Option<Seq<char>>, int)> = if want1
                            || want2 {
                            if v >= s.len() || s[v] != '"' {
                                None
                            } else {
                                match spec_str_tail(s, v + 1) {
                                    None => None,
                                    Some((content, e)) => Some(
                                        (
                                            if want1 {
                                                Some(content)
                                            } else {
                                                v1
                                            },
                                            if want2 {
                                                Some(content)
                                            } else {
                                                v2
                                            },
                                            e,
                                        ),
                                    ),
                                }
                            }
                        } else {
                            match spec_skip_value(s, v, JSON_DEPTH_LIMIT as nat) {
                                None => None,
                                Some(e) => Some((v1, v2, e)),
                            }
                        };
                        match stepped {
                            None => None,
                            Some((nv1, nv2, e)) => {
                                let w = ws_end(s, e);
                                if w >= s.len() {
                                    None
                                } else if s[w] == '}' {
                                    match (nv1, nv2) {
                                        (Some(t1), Some(t2)) => Some((t1, t2, w + 1)),
                                        _ => None,
                                    }
                                } else if s[w] == ',' {
                                    let m = ws_end(s, w + 1);
                                    if m <= i || m > s.len() {
                                        None
                                    } else {
                                        spec_str_obj_items(s, m, k1, k2, nv1, nv2)
                                    }
                                } else {
                                    None
                                }
                            },
                        }
                    }
                }
            },
        }
    }
}

/// An object with two tracked string fields, `i` standing on its opening
/// brace.
pub open spec fn spec_str_obj(s: Seq<char>, i: int, k1: Seq<char>, k2: Seq<char>) -> Option<
    (Seq<char>, Seq<char>, int),
> {
    if i < 0 || i >= s.len() || s[i] != '{' {
        None
    } else {
        let j = ws_end(s, i + 1);
        if j >= s.len() {
            None
        } else if s[j] == '}' {
            None
        } else {
            spec_str_obj_items(s, j, k1, k2, None, None)
        }
    }
}

/// What the geocoding response body yields: the string `lat` and `lon`
/// fields of the first candidate.  The remaining candidates only have to
/// be well-formed JSON values; their content is never consulted.  An empty
/// candidate array is `UnknownLocationName`; any shape failure is
/// `JsonError`.
pub open spec fn spec_search_outcome(s: Seq<char>) -> Result<
    (Seq<char>, Seq<char>),
    SunshineError,
> {
    let i = ws_end(s, 0);
    if i >= s.len() || s[i] != '[' {
        Err(SunshineError::JsonError)
    } else {
        let j = ws_end(s, i + 1);
        if j < s.len() && s[j] == ']' {
            if ws_end(s, j + 1) == s.len() {
                Err(SunshineError::UnknownLocationName)
            } else {
                Err(SunshineError::JsonError)
            }
        } else {
            match spec_str_obj(s, j, key_lat(), key_lon()) {
                None => Err(SunshineError::JsonError),
                Some((lat, lon, e)) => {
                    let k = ws_end(s, e);
                    if k < s.len() && s[k] == ']' {
                        if ws_end(s, k + 1) == s.len() {
                            Ok((lat, lon))
                        } else {
                            Err(SunshineError::JsonError)
                        }
                    } else if k < s.len() && s[k] == ',' {
                        let m = ws_end(s, k + 1);
                        match spec_arr_items(s, m, JSON_DEPTH_LIMIT as nat) {
                            None => Err(SunshineError::JsonError),
                            Some(e2) => if ws_end(s, e2) == s.len() {
                                Ok((lat, lon))
                            } else {
                                Err(SunshineError::JsonError)
                            },
                        }
                    } else {
                        Err(SunshineError::JsonError)
                    }
                },
            }
        }
    }
}

/// Walks the members of an object holding two tracked string fields.
fn parse_str_obj_items(
    s: &str,
    i: usize,
    k1: &str,
    k2: &str,
    v1: Option<String>,
    v2: Option<String>,
) -> (r: Option<(String, String, usize)>)
    requires
        i <= s@.len(),
    ensures
        match r {
            Some(t) => spec_str_obj_items(
                s@,
                i as int,
                k1@,
                k2@,
                view_opt_str(v1),
                view_opt_str(v2),
            ) == Some((t.0@, t.1@, t.2 as int)) && i < t.2 <= s@.len(),
            None => spec_str_obj_items(
                s@,
                i as int,
                k1@,
                k2@,
                view_opt_str(v1),
                view_opt_str(v2),
            ) is None,
        },
    decreases s@.len() - i,
{
    let n = s.unicode_len();
    if i >= n || s.get_char(i) != '"' {
        return None;
    }
    let (key, j) = match parse_str_tail(s, i + 1) {
        None => {
            return None;
        },
        Some(t) => t,
    };
    let k = skip_ws(s, j);
    if k >= n || s.get_char(k) != ':' {
        return None;
    }
    let v = skip_ws(s, k + 1);
    if v <= i {
        return None;
    }
    let want1 = str_eq_chars(key.as_str(), k1) && v1.is_none();
    let want2 = str_eq_chars(key.as_str(), k2) && v2.is_none();
    let (nv1, nv2, e): (Option<String>, Option<String>, usize) = if want1 || want2 {
        if v >= n || s.get_char(v) != '"' {
            return None;
        }
        match parse_str_tail(s, v + 1) {
            None => {
                return None;
            },
            Some((content, e)) => {
                let n1 = if want1 {
                    Some(content.clone())
                } else {
                    v1
                };
                let n2 = if want2 {
                    Some(content)
                } else {
                    v2
                };
                (n1, n2, e)
            },
        }
    } else {
        match skip_value(s, v, JSON_DEPTH_LIMIT) {
            None => {
                return None;
            },
            Some(e) => (v1, v2, e),
        }
    };
    let w = skip_ws(s, e);
    if w >= n {
        return None;
    }
    if s.get_char(w) == '}' {
        return match (nv1, nv2) {
            (Some(t1), Some(t2)) => Some((t1, t2, w + 1)),
            _ => None,
        };
    }
    if s.get_char(w) == ',' {
        let m = skip_ws(s, w + 1);
        if m <= i {
            return None;
        }
        return parse_str_obj_items(s, m, k1, k2, nv1, nv2);
    }
    None
}

/// Reads an object with two tracked string fields, `i` standing on its
/// opening brace.
fn parse_str_obj(s: &str, i: usize, k1: &str, k2: &str) -> (r: Option<(String, String, usize)>)
    requires
        i <= s@.len(),
    ensures
        match r {
            Some(t) => spec_str_obj(s@, i as int, k1@, k2@) == Some((t.0@, t.1@, t.2 as int)) && i
                < t.2 <= s@.len(),
            None => spec_str_obj(s@, i as int, k1@, k2@) is None,
        },
{
    let n = s.unicode_len();
    if i >= n || s.get_char(i) != '{' {
        return None;
    }
    let j = skip_ws(s, i + 1);
    if j >= n {
        return None;
    }
    if s.get_char(j) == '}' {
        return None;
    }
    parse_str_obj_items(s, j, k1, k2, None, None)
}

/// Parses the geocoding response body: an array of candidate objects,
/// taking the string `lat` and `lon` fields of the first candidate only.
pub fn parse_search_body(body: &str) -> (r: Result<(String, String), SunshineError>)
    ensures
        match r {
            Ok(t) => spec_search_outcome(body@) == Ok::<_, SunshineError>((t.0@, t.1@)),
            Err(e) => spec_search_outcome(body@) == Err::<(Seq<char>, Seq<char>), _>(e),
        },
{
    let n = body.unicode_len();
    let i = skip_ws(body, 0);
    if i >= n || body.get_char(i) != '[' {
        return Err(SunshineError::JsonError);
    }
    let j = skip_ws(body, i + 1);
    if j < n && body.get_char(j) == ']' {
        return if skip_ws(body, j + 1) == n {
            Err(SunshineError::UnknownLocationName)
        } else {
            Err(SunshineError::JsonError)
        };
    }
    let (lat, lon, e) = match parse_str_obj(body, j, "lat", "lon") {
        None => {
            return Err(SunshineError::JsonError);
        },
        Some(t) => t,
    };
    let k = skip_ws(body, e);
    if k < n && body.get_char(k) == ']' {
        if skip_ws(body, k + 1) == n {
            Ok((lat, lon))
        } else {
            Err(SunshineError::JsonError)
        }
    } else if k < n && body.get_char(k) == ',' {
        let m = skip_ws(body, k + 1);
        match arr_items(body, m, JSON_DEPTH_LIMIT) {
            None => Err(SunshineError::JsonError),
            Some(e2) => {
                if skip_ws(body, e2) == n {
                    Ok((lat, lon))
                } else {
                    Err(SunshineError::JsonError)
                }
            },
        }
    } else {
        Err(SunshineError::JsonError)
    }
}

/// Walks the members of the cache file's `data` object, `i` standing on
/// the opening quote of a name.  Every value must be an object with
/// numeric `lat` and `long` fields.  Yields the entries in file order.
pub open spec fn spec_data_items(s: Seq<char>, i: int) -> Option<
    (Seq<(Seq<char>, LocationView)>, int),
>
    decreases s.len() - i,
{
    if i < 0 || i >= s.len() || s[i] != '"' {
        None
    } else {
        match spec_str_tail(s, i + 1) {
            None => None,
            Some((name, j)) => {
                let k = ws_end(s, j);
                if k >= s.len() || s[k] != ':' {
                    None
                } else {
                    let v = ws_end(s, k + 1);
                    if v <= i || v > s.len() {
                        None
                    } else {
                        match spec_num_obj(s, v, key_lat(), key_long()) {
                            None => None,
                            Some((lat, long, e)) => {
                                let entry = (name, LocationView { lat, long });
                                let w = ws_end(s, e);
                                if w >= s.len() {
                                    None
                                } else if s[w] == '}' {
                                    Some((seq![entry], w + 1))
                                } else if s[w] == ',' {
                                    let m = ws_end(s, w + 1);
                                    if m <= i || m > s.len() {
                                        None
                                    } else {
                                        match spec_data_items(s, m) {
                                            None => None,
                                            Some((rest, end)) => Some((seq![entry] + rest, end)),
                                        }
                                    }
                                } else {
                                    None
                                }
                            },
                        }
                    }
                }
            },
        }
    }
}

/// Walks the members of the cache file's top-level object, `i` standing on
/// the opening quote of a key.  The first `data` member must hold the map
/// of entries; every other member is skipped.
pub open spec fn spec_cache_items(
    s: Seq<char>,
    i: int,
    found: Option<Seq<(Seq<char>, LocationView)>>,
) -> Option<(Seq<(Seq<char>, LocationView)>, int)>
    decreases s.len() - i,
{
    if i < 0 || i >= s.len() || s[i] != '"' {
        None
    } else {
        match spec_str_tail(s, i + 1) {
            None => None,
            Some((key, j)) => {
                let k = ws_end(s, j);
                if k >= s.len() || s[k] != ':' {
                    None
                } else {
                    let v = ws_end(s, k + 1);
                    if v <= i || v > s.len() {
                        None
                    } else {
                        let want = key == key_data() && found is None;
                        let stepped: Option<(Option<Seq<(Seq<char>, LocationView)>>, int)> = if want {
                            if v >= s.len() || s[v] != '{' {
                                None
                            } else {
                                let j2 = ws_end(s, v + 1);
                                if j2 < s.len() && s[j2] == '}' {
                                    Some((Some(Seq::empty()), j2 + 1))
                                } else if j2 <= v || j2 > s.len() {
                                    None
                                } else {
                                    match spec_data_items(s, j2) {
                                        None => None,
                                        Some((es, e)) => Some((Some(es), e)),
                                    }
                                }
                            }
                        } else {
                            match spec_skip_value(s, v, JSON_DEPTH_LIMIT as nat) {
                                None => None,
                                Some(e) => Some((found, e)),
                            }
                        };
                        match stepped {
                            None => None,
                            Some((nfound, e)) => {
                                let w = ws_end(s, e);
                                if w >= s.len() {
                                    None
                                } else if s[w] == '}' {
                                    match nfound {
                                        Some(es) => Some((es, w + 1)),
                                        None => None,
                                    }
                                } else if s[w] == ',' {
                                    let m = ws_end(s, w + 1);
                                    if m <= i || m > s.len() {
                                        None
                                    } else {
                                        spec_cache_items(s, m, nfound)
                                    }
                                } else {
                                    None
                                }
                            },
                        }
                    }
                }
            },
        }
    }
}

/// What the cache file parses to: the entries of its `data` object, in
/// file order, names as decoded, coordinates as their tokens.  Anything
/// that does not match the shape yields nothing.
pub open spec fn spec_parse_cache(s: Seq<char>) -> Option<Seq<(Seq<char>, LocationView)>> {
    let i = ws_end(s, 0);
    if i >= s.len() || s[i] != '{' {
        None
    } else {
        let j = ws_end(s, i + 1);
        if j < s.len() && s[j] == '}' {
            None
        } else {
            match spec_cache_items(s, j, None) {
                None => None,
                Some((es, e)) => if 0 <= e <= s.len() && ws_end(s, e) == s.len() {
                    Some(es)
                } else {
                    None
                },
            }
        }
    }
}

/// The entries of an owned list abstracted to their characters and tokens.
pub open spec fn view_entries(v: Seq<(String, Location)>) -> Seq<(Seq<char>, LocationView)> {
    v.map_values(|p: (String, Location)| (p.0@, p.1@))
}

/// An optional owned entry list abstracted as `view_entries`.
pub open spec fn view_opt_entries(o: Option<Vec<(String, Location)>>) -> Option<
    Seq<(Seq<char>, LocationView)>,
> {
    match o {
        Some(v) => Some(view_entries(v@)),
        None => None,
    }
}

/// Walks the members of the cache file's `data` object.
fn parse_data_items(s: &str, i: usize) -> (r: Option<(Vec<(String, Location)>, usize)>)
    requires
        i <= s@.len(),
    ensures
        match r {
            Some(t) => spec_data_items(s@, i as int) == Some((view_entries(t.0@), t.1 as int)) && i
                < t.1 <= s@.len(),
            None => spec_data_items(s@, i as int) is None,
        },
    decreases s@.len() - i,
{
    let n = s.unicode_len();
    if i >= n || s.get_char(i) != '"' {
        return None;
    }
    let (name, j) = match parse_str_tail(s, i + 1) {
        None => {
            return None;
        },
        Some(t) => t,
    };
    let k = skip_ws(s, j);
    if k >= n || s.get_char(k) != ':' {
        return None;
    }
    let v = skip_ws(s, k + 1);
    if v <= i {
        return None;
    }
    let (lat, long, e) = match parse_num_obj(s, v, "lat", "long") {
        None => {
            return None;
        },
        Some(t) => t,
    };
    let entry = (name, Location { lat, long });
    let w = skip_ws(s, e);
    if w >= n {
        return None;
    }
    if s.get_char(w) == '}' {
        let mut out: Vec<(String, Location)> = Vec::new();
        out.push(entry);
        proof {
            assert(view_entries(out@) =~= seq![(entry.0@, entry.1@)]);
        }
        return Some((out, w + 1));
    }
    if s.get_char(w) == ',' {
        let m = skip_ws(s, w + 1);
        if m <= i {
            return None;
        }
        return match parse_data_items(s, m) {
            None => None,
            Some((rest, end)) => {
                let mut out = rest;
                out.insert(0, entry);
                proof {
                    assert(view_entries(out@) =~= seq![(entry.0@, entry.1@)] + view_entries(
                        out@.drop_first(),
                    ));
                }
                Some((out, end))
            },
        };
    }
    None
}

/// Walks the members of the cache file's top-level object.
fn parse_cache_items(s: &str, i: usize, found: Option<Vec<(String, Location)>>) -> (r: Option<
    (Vec<(String, Location)>, usize),
>)
    requires
        i <= s@.len(),
    ensures
        match r {
            Some(t) => spec_cache_items(s@, i as int, view_opt_entries(found)) == Some(
                (view_entries(t.0@), t.1 as int),
            ) && i < t.1 <= s@.len(),
            None => spec_cache_items(s@, i as int, view_opt_entries(found)) is None,
        },
    decreases s@.len() - i,
{
    let n = s.unicode_len();
    if i >= n || s.get_char(i) != '"' {
        return None;
    }
    let (key, j) = match parse_str_tail(s, i + 1) {
        None => {
            return None;
        },
        Some(t) => t,
    };
    let k = skip_ws(s, j);
    if k >= n || s.get_char(k) != ':' {
        return None;
    }
    let v = skip_ws(s, k + 1);
    if v <= i {
        return None;
    }
    let want = str_eq_chars(key.as_str(), "data") && found.is_none();
    let (nfound, e): (Option<Vec<(String, Location)>>, usize) = if want {
        if v >= n || s.get_char(v) != '{' {
            return None;
        }
        let j2 = skip_ws(s, v + 1);
        if j2 < n && s.get_char(j2) == '}' {
            let empty: Vec<(String, Location)> = Vec::new();
            proof {
                assert(view_entries(empty@) =~= Seq::<(Seq<char>, LocationView)>::empty());
            }
            (Some(empty), j2 + 1)
        } else if j2 <= v {
            return None;
        } else {
            match parse_data_items(s, j2) {
                None => {
                    return None;
                },
                Some((es, e)) => (Some(es), e),
            }
        }
    } else {
        match skip_value(s, v, JSON_DEPTH_LIMIT) {
            None => {
                return None;
            },
            Some(e) => (found, e),
        }
    };
    let w = skip_ws(s, e);
    if w >= n {
        return None;
    }
    if s.get_char(w) == '}' {
        return match nfound {
            Some(es) => Some((es, w + 1)),
            None => None,
        };
    }
    if s.get_char(w) == ',' {
        let m = skip_ws(s, w + 1);
        if m <= i {
            return None;
        }
        return parse_cache_items(s, m, nfound);
    }
    None
}

/// Parses the cache file: a JSON object whose `data` member maps each name
/// to an object with numeric `lat` and `long` fields.  Yields the entries
/// in file order.
pub fn parse_cache(s: &str) -> (r: Option<Vec<(String, Location)>>)
    ensures
        match r {
            Some(es) => spec_parse_cache(s@) == Some(view_entries(es@)),
            None => spec_parse_cache(s@) is None,
        },
{
    let n = s.unicode_len();
    let i = skip_ws(s, 0);
    if i >= n || s.get_char(i) != '{' {
        return None;
    }
    let j = skip_ws(s, i + 1);
    if j < n && s.get_char(j) == '}' {
        return None;
    }
    match parse_cache_items(s, j, None) {
        None => None,
        Some((es, e)) => {
            if skip_ws(s, e) == n {
                Some(es)
            } else {
                None
            }
        },
    }
}

/// The lowercase hexadecimal digit of a value below 16.
pub open spec fn hex_digit_char(v: int) -> char {
    if v == 0 {
        '0'
    } else if v == 1 {
        '1'
    } else if v == 2 {
        '2'
    } else if v == 3 {
        '3'
    } else if v == 4 {
        '4'
    } else if v == 5 {
        '5'
    } else if v == 6 {
        '6'
    } else if v == 7 {
        '7'
    } else if v == 8 {
        '8'
    } else if v == 9 {
        '9'
    } else if v == 10 {
        'a'
    } else if v == 11 {
        'b'
    } else if v == 12 {
        'c'
    } else if v == 13 {
        'd'
    } else if v == 14 {
        'e'
    } else {
        'f'
    }
}

/// How one character is written inside a JSON string: quotes, backslashes
/// and control characters are escaped, everything else stands as itself.
pub open spec fn esc_char(c: char) -> Seq<char> {
    if c == '"' {
        seq!['\\', '"']
    } else if c == '\\' {
        seq!['\\', '\\']
    } else if c == '\u{8}' {
        seq!['\\', 'b']
    } else if c == '\u{c}' {
        seq!['\\', 'f']
    } else if c == '\n' {
        seq!['\\', 'n']
    } else if c == '\r' {
        seq!['\\', 'r']
    } else if c == '\t' {
        seq!['\\', 't']
    } else if (c as u32) < 0x20 {
        seq!['\\', 'u', '0', '0', hex_digit_char((c as u32) as int / 16), hex_digit_char(
            (c as u32) as int % 16,
        )]
    } else {
        seq![c]
    }
}

/// How a whole string is written inside a JSON string.
pub open spec fn escape_str(s: Seq<char>) -> Seq<char>
    decreases s.len(),
{
    if s.len() == 0 {
        Seq::empty()
    } else {
        esc_char(s[0]) + escape_str(s.drop_first())
    }
}

/// How one cache entry is written.
pub open spec fn spec_print_entry(name: Seq<char>, loc: LocationView) -> Seq<char> {
    seq!['"'] + escape_str(name) + "\":{\"lat\":"@ + loc.lat + ",\"long\":"@ + loc.long + seq!['}']
}

/// How the entries of the cache map are written, comma-separated, in
/// order.
pub open spec fn spec_print_entries(es: Seq<(Seq<char>, LocationView)>) -> Seq<char>
    decreases es.len(),
{
    if es.len() == 0 {
        Seq::empty()
    } else if es.len() == 1 {
        spec_print_entry(es[0].0, es[0].1)
    } else {
        spec_print_entry(es[0].0, es[0].1) + seq![','] + spec_print_entries(es.drop_first())
    }
}

/// How the whole cache file is written.
pub open spec fn spec_print_cache(es: Seq<(Seq<char>, LocationView)>) -> Seq<char> {
    "{\"data\":{"@ + spec_print_entries(es) + "}}"@
}

/// Both tokens of every entry from `i` on are JSON numbers.
pub open spec fn entries_serializable(es: Seq<(Seq<char>, LocationView)>, i: int) -> bool {
    forall|q: int|
        i <= q < es.len() ==> is_json_number(#[trigger] es[q].1.lat) && is_json_number(es[q].1.long)
}

/// A hexadecimal digit written by `hex_digit_char` reads back as its value.
pub proof fn lemma_hex_digit_round_trip(v: int)
    requires
        0 <= v < 16,
    ensures
        hex_val(hex_digit_char(v)) == v,
{
}

/// Writing a string by escaping `name` and closing the quote, then reading
/// it back as a string body, yields exactly `name`, the read stopping just
/// after the closing quote: escaping and string-body decoding invert each
/// other.
pub proof fn lemma_escape_round_trip(s: Seq<char>, i: int, name: Seq<char>, j: int)
    requires
        0 <= i <= j < s.len(),
        s.subrange(i, j) == escape_str(name),
        s[j] == '"',
    ensures
        spec_str_tail(s, i) == Some((name, j + 1)),
    decreases name.len(),
{
    if name.len() == 0 {
        assert(j == i);
        assert(name =~= Seq::<char>::empty());
    } else {
        let c = name[0];
        let e0 = esc_char(c);
        let rest = escape_str(name.drop_first());
        assert(escape_str(name) == e0 + rest);
        assert(j - i == e0.len() + rest.len());
        assert forall|q: int| 0 <= q < j - i implies s[i + q] == (e0 + rest)[q] by {
            assert(s.subrange(i, j)[q] == s[i + q]);
        }
        assert forall|q: int| 0 <= q < e0.len() implies s[i + q] == e0[q] by {
            assert(s[i + q] == (e0 + rest)[q]);
        }
        assert(s[i] == e0[0]) by {
            assert(s[i + 0] == e0[0]);
        }
        if e0.len() >= 2 {
            assert(s[i + 1] == e0[1]);
        }
        assert forall|q: int| 0 <= q < rest.len() implies s.subrange(i + e0.len(), j)[q]
            == rest[q] by {
            assert(s[i + (e0.len() + q)] == (e0 + rest)[e0.len() + q]);
            assert(s.subrange(i + e0.len(), j)[q] == s[i + e0.len() + q]);
        }
        assert(s.subrange(i + e0.len(), j) =~= rest);
        lemma_escape_round_trip(s, i + e0.len(), name.drop_first(), j);
        assert(spec_str_tail(s, i + e0.len()) == Some((name.drop_first(), j + 1)));
        if c == '"' || c == '\\' {
            assert(e0 == seq!['\\', c]);
            assert(s[i] == '\\' && s[i + 1] == c);
            assert(seq![c] + name.drop_first() =~= name);
        } else if c == '\u{8}' {
            assert(s[i] == '\\' && s[i + 1] == 'b');
            assert(seq![c] + name.drop_first() =~= name);
        } else if c == '\u{c}' {
            assert(s[i] == '\\' && s[i + 1] == 'f');
            assert(seq![c] + name.drop_first() =~= name);
        } else if c == '\n' {
            assert(s[i] == '\\' && s[i + 1] == 'n');
            assert(seq![c] + name.drop_first() =~= name);
        } else if c == '\r' {
            assert(s[i] == '\\' && s[i + 1] == 'r');
            assert(seq![c] + name.drop_first() =~= name);
        } else if c == '\t' {
            assert(s[i] == '\\' && s[i + 1] == 't');
            assert(seq![c] + name.drop_first() =~= name);
        } else if (c as u32) < 0x20 {
            let v = (c as u32) as int;
            assert(e0 == seq!['\\', 'u', '0', '0', hex_digit_char(v / 16), hex_digit_char(v % 16)]);
            assert(s[i] == '\\' && s[i + 1] == 'u' && s[i + 2] == e0[2] && s[i + 3] == e0[3]);
            assert(s[i + 4] == e0[4] && s[i + 5] == e0[5]);
            assert(s[i + 2] == '0' && s[i + 3] == '0');
            assert(s[i + 4] == hex_digit_char(v / 16) && s[i + 5] == hex_digit_char(v % 16));
            lemma_hex_digit_round_trip(v / 16);
            lemma_hex_digit_round_trip(v % 16);
            assert(hex_val(s[i + 2]) == 0 && hex_val(s[i + 3]) == 0);
            let w = hex_val(s[i + 2]) * 4096 + hex_val(s[i + 3]) * 256 + hex_val(s[i + 4]) * 16
                + hex_val(s[i + 5]);
            assert(w == (v / 16) * 16 + v % 16);
            assert(w == v);
            let ch = (w as u8) as char;
            assert(ch as u32 == w);
            vstd::utf8::char_u32_cast(ch, ch as u32);
            vstd::utf8::char_u32_cast(c, c as u32);
            assert(ch == c);
            assert(seq![c] + name.drop_first() =~= name);
        } else {
            assert(e0 == seq![c]);
            assert(s[i] == c);
            assert(c != '"' && c != '\\' && !((c as u32) < 0x20));
            assert(seq![c] + name.drop_first() =~= name);
        }
    }
}

/// The lowercase hexadecimal digit of a value below 16.
fn hex_digit_exec(v: u32) -> (r: char)
    requires
        v < 16,
    ensures
        r == hex_digit_char(v as int),
{
    match v {
        0 => '0',
        1 => '1',
        2 => '2',
        3 => '3',
        4 => '4',
        5 => '5',
        6 => '6',
        7 => '7',
        8 => '8',
        9 => '9',
        10 => 'a',
        11 => 'b',
        12 => 'c',
        13 => 'd',
        14 => 'e',
        _ => 'f',
    }
}

/// Escapes the rest of `s` from `i` for writing inside a JSON string.
fn render_escaped(s: &str, i: usize) -> (r: String)
    requires
        i <= s@.len(),
    ensures
        r@ == escape_str(s@.subrange(i as int, s@.len() as int)),
    decreases s@.len() - i,
{
    let n = s.unicode_len();
    if i >= n {
        let out = String::new();
        proof {
            assert(s@.subrange(i as int, s@.len() as int) =~= Seq::<char>::empty());
        }
        return out;
    }
    let c = s.get_char(i);
    let mut head = String::new();
    if c == '"' {
        push_char(&mut head, '\\');
        push_char(&mut head, '"');
    } else if c == '\\' {
        push_char(&mut head, '\\');
        push_char(&mut head, '\\');
    } else if c == '\u{8}' {
        push_char(&mut head, '\\');
        push_char(&mut head, 'b');
    } else if c == '\u{c}' {
        push_char(&mut head, '\\');
        push_char(&mut head, 'f');
    } else if c == '\n' {
        push_char(&mut head, '\\');
        push_char(&mut head, 'n');
    } else if c == '\r' {
        push_char(&mut head, '\\');
        push_char(&mut head, 'r');
    } else if c == '\t' {
        push_char(&mut head, '\\');
        push_char(&mut head, 't');
    } else if (c as u32) < 0x20 {
        let v = c as u32;
        push_char(&mut head, '\\');
        push_char(&mut head, 'u');
        push_char(&mut head, '0');
        push_char(&mut head, '0');
        push_char(&mut head, hex_digit_exec(v / 16));
        push_char(&mut head, hex_digit_exec(v % 16));
    } else {
        push_char(&mut head, c);
    }
    proof {
        assert(head@ =~= esc_char(c));
    }
    let tail = render_escaped(s, i + 1);
    let mut out = head;
    out.append(tail.as_str());
    proof {
        let whole = s@.subrange(i as int, s@.len() as int);
        assert(whole.drop_first() =~= s@.subrange(i + 1, s@.len() as int));
        assert(out@ =~= escape_str(whole));
    }
    out
}

/// Writes one cache entry.
fn render_entry(name: &str, loc: &Location) -> (r: String)
    ensures
        r@ == spec_print_entry(name@, loc@),
{
    let mut out = char_string('"');
    let escaped = render_escaped(name, 0);
    out.append(escaped.as_str());
    out.append("\":{\"lat\":");
    out.append(loc.lat.as_str());
    out.append(",\"long\":");
    out.append(loc.long.as_str());
    push_char(&mut out, '}');
    proof {
        assert(name@.subrange(0, name@.len() as int) =~= name@);
        assert(out@ =~= spec_print_entry(name@, loc@));
    }
    out
}

/// Writes the entries from `i` on, comma-separated, after checking that
/// their tokens are JSON numbers.
#[verifier::rlimit(50)]
fn render_entries(entries: &Vec<(String, Location)>, i: usize) -> (r: Result<
    String,
    SunshineError,
>)
    requires
        i <= entries@.len(),
    ensures
        match r {
            Ok(out) => entries_serializable(view_entries(entries@), i as int) && out@
                == spec_print_entries(view_entries(entries@).skip(i as int)),
            Err(e) => e == SunshineError::CacheSerializationError && !entries_serializable(
                view_entries(entries@),
                i as int,
            ),
        },
    decreases entries@.len() - i,
{
    let n = entries.len();
    if i >= n {
        proof {
            assert(view_entries(entries@).skip(i as int) =~= Seq::<
                (Seq<char>, LocationView),
            >::empty());
        }
        return Ok(String::new());
    }
    let pair = &entries[i];
    if !crate::numbers::check_json_number(pair.1.lat.as_str()) || !crate::numbers::check_json_number(
        pair.1.long.as_str(),
    ) {
        proof {
            let all = view_entries(entries@);
            assert(all[i as int] == (entries@[i as int].0@, entries@[i as int].1@));
            assert(!(is_json_number(all[i as int].1.lat) && is_json_number(all[i as int].1.long)));
        }
        return Err(SunshineError::CacheSerializationError);
    }
    let head = render_entry(pair.0.as_str(), &pair.1);
    proof {
        let all = view_entries(entries@);
        assert(all[i as int] == (entries@[i as int].0@, entries@[i as int].1@));
        assert(is_json_number(all[i as int].1.lat) && is_json_number(all[i as int].1.long));
    }
    if i + 1 >= n {
        proof {
            let all = view_entries(entries@);
            let es = all.skip(i as int);
            assert forall|q: int| i <= q < all.len() implies is_json_number(
                #[trigger] all[q].1.lat,
            ) && is_json_number(all[q].1.long) by {
                assert(q == i);
            }
            assert(es.len() == 1);
            assert(es[0] == (entries@[i as int].0@, entries@[i as int].1@));
            assert(head@ =~= spec_print_entries(es));
        }
        return Ok(head);
    }
    match render_entries(entries, i + 1) {
        Err(e) => {
            proof {
                let all = view_entries(entries@);
                assert(!entries_serializable(all, i as int)) by {
                    if entries_serializable(all, i as int) {
                        assert forall|q: int| i + 1 <= q < all.len() implies is_json_number(
                            #[trigger] all[q].1.lat,
                        ) && is_json_number(all[q].1.long) by {
                            assert(i <= q < all.len());
                        }
                        assert(entries_serializable(all, i + 1));
                        assert(false);
                    }
                }
            }
            Err(e)
        },
        Ok(rest) => {
            let mut out = head;
            push_char(&mut out, ',');
            out.append(rest.as_str());
            proof {
                let all = view_entries(entries@);
                let es = all.skip(i as int);
                assert forall|q: int| i <= q < all.len() implies is_json_number(
                    #[trigger] all[q].1.lat,
                ) && is_json_number(all[q].1.long) by {
                    if q != i {
                        assert(entries_serializable(all, i + 1));
                    }
                }
                assert(es.drop_first() =~= all.skip(i + 1));
                assert(es[0] == (entries@[i as int].0@, entries@[i as int].1@));
                assert(es.len() == all.len() - i);
                assert(es.len() >= 2);
                assert(head@ == spec_print_entry(es[0].0, es[0].1));
                assert(rest@ == spec_print_entries(es.drop_first()));
                assert(spec_print_entries(es) == spec_print_entry(es[0].0, es[0].1) + seq![',']
                    + spec_print_entries(es.drop_first()));
                assert(out@ =~= spec_print_entries(es));
            }
            Ok(out)
        },
    }
}

/// Serializes the cache map to its file form.  Fails with
/// `CacheSerializationError` when some stored token is not a JSON number
/// and so cannot be written as one.
pub fn render_cache(entries: &Vec<(String, Location)>) -> (r: Result<String, SunshineError>)
    ensures
        match r {
            Ok(out) => entries_serializable(view_entries(entries@), 0) && out@ == spec_print_cache(
                view_entries(entries@),
            ),
            Err(e) => e == SunshineError::CacheSerializationError && !entries_serializable(
                view_entries(entries@),
                0,
            ),
        },
{
    match render_entries(entries, 0) {
        Err(e) => Err(e),
        Ok(body) => {
            let mut out = String::new();
            out.append("{\"data\":{");
            out.append(body.as_str());
            out.append("}}");
            proof {
                assert(view_entries(entries@).skip(0) =~= view_entries(entries@));
                assert(out@ =~= spec_print_cache(view_entries(entries@)));
            }
            Ok(out)
        },
    }
}

} // verus!
