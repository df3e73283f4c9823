//! Parser for the structured payload text: objects with string keys, string,
//! number, boolean and null values, arbitrarily nested objects, and the usual
//! string escapes. `sp_parse_json` is the grammar, written as a recursive
//! descent over the bytes; the executable parser returns exactly what it says.
//!
//! Inside the grammar, a test of the shape `if !(i <= j <= s.len())` guards a
//! position returned by a sub-parser: the termination measures need every
//! recursive call to stand at a strictly later position, and the guard states
//! that bound where the definition cannot otherwise see it. No well-formed
//! run takes such a branch.

use vstd::prelude::*;

use crate::jsonval::{is_digit, view_json, view_entries, Json, JsonS};

verus! {

/// The payload text is not well-formed.
#[derive(Clone, Copy, PartialEq, Eq, Structural, Debug)]
pub enum ParseError {
    Malformed,
}

pub open spec fn is_ws(b: u8) -> bool {
    b == 0x20 || b == 0x09 || b == 0x0A || b == 0x0D
}

/// First position at or after `i` that does not hold whitespace.
pub open spec fn sp_skip_ws(s: Seq<u8>, i: int) -> int
    decreases s.len() - i,
    when 0 <= i <= s.len()
{
    if i < s.len() && is_ws(s[i]) {
        sp_skip_ws(s, i + 1)
    } else {
        i
    }
}

/// The byte written by a string escape, for the escapes the format knows.
pub open spec fn sp_escape(b: u8) -> Option<u8> {
    if b == 0x22 {
        Some(0x22u8)
    } else if b == 0x5C {
        Some(0x5Cu8)
    } else if b == 0x2F {
        Some(0x2Fu8)
    } else if b == 0x62 {
        Some(0x08u8)
    } else if b == 0x66 {
        Some(0x0Cu8)
    } else if b == 0x6E {
        Some(0x0Au8)
    } else if b == 0x72 {
        Some(0x0Du8)
    } else if b == 0x74 {
        Some(0x09u8)
    } else {
        None
    }
}

/// Content and end of a string, starting just after the opening quote:
/// any byte from 0x20 up except quote and backslash, or a known escape,
/// until the closing quote.
pub open spec fn sp_parse_string_body(s: Seq<u8>, i: int) -> Option<(Seq<u8>, int)>
    decreases s.len() - i,
    when 0 <= i <= s.len()
{
    if i >= s.len() {
        None
    } else {
        let b = s[i];
        if b == 0x22 {
            Some((Seq::empty(), i + 1))
        } else if b == 0x5C {
            if i + 2 <= s.len() {
                match sp_escape(s[i + 1]) {
                    Some(c) => match sp_parse_string_body(s, i + 2) {
                        Some(r) => Some((seq![c] + r.0, r.1)),
                        None => None,
                    },
                    None => None,
                }
            } else {
                None
            }
        } else if b < 0x20 {
            None
        } else {
            match sp_parse_string_body(s, i + 1) {
                Some(r) => Some((seq![b] + r.0, r.1)),
                None => None,
            }
        }
    }
}

/// First position at or after `i` that does not hold a digit.
pub open spec fn sp_scan_digits(s: Seq<u8>, i: int) -> int
    decreases s.len() - i,
    when 0 <= i <= s.len()
{
    if i < s.len() && is_digit(s[i]) {
        sp_scan_digits(s, i + 1)
    } else {
        i
    }
}

/// End of the integer part: an optional minus sign, then one or more digits.
pub open spec fn sp_after_int(s: Seq<u8>, i: int) -> Option<int> {
    let j0 = if i < s.len() && s[i] == 0x2D {
        i + 1
    } else {
        i
    };
    let j1 = sp_scan_digits(s, j0);
    if j1 == j0 {
        None
    } else {
        Some(j1)
    }
}

/// End of the optional fraction part: a dot followed by one or more digits.
pub open spec fn sp_after_frac(s: Seq<u8>, i: int) -> Option<int> {
    if 0 <= i < s.len() && s[i] == 0x2E {
        let k = sp_scan_digits(s, i + 1);
        if k == i + 1 {
            None
        } else {
            Some(k)
        }
    } else {
        Some(i)
    }
}

/// End of the optional exponent part: `e` or `E`, an optional sign, digits.
pub open spec fn sp_after_exp(s: Seq<u8>, i: int) -> Option<int> {
    if 0 <= i < s.len() && (s[i] == 0x65 || s[i] == 0x45) {
        let j0 = if i + 1 < s.len() && (s[i + 1] == 0x2B || s[i + 1] == 0x2D) {
            i + 2
        } else {
            i + 1
        };
        let k = sp_scan_digits(s, j0);
        if k == j0 {
            None
        } else {
            Some(k)
        }
    } else {
        Some(i)
    }
}

/// Lexeme and end of a number.
pub open spec fn sp_parse_number(s: Seq<u8>, i: int) -> Option<(Seq<u8>, int)> {
    match sp_after_int(s, i) {
        None => None,
        Some(j1) => if !(i < j1 <= s.len()) {
            None
        } else {
            match sp_after_frac(s, j1) {
                None => None,
                Some(j2) => if !(j1 <= j2 <= s.len()) {
                    None
                } else {
                    match sp_after_exp(s, j2) {
                        None => None,
                        Some(j3) => if !(j2 <= j3 <= s.len()) {
                            None
                        } else {
                            Some((s.subrange(i, j3), j3))
                        },
                    }
                },
            }
        },
    }
}

/// A value starting exactly at `i`, and the position after it.
pub open spec fn sp_parse_value(s: Seq<u8>, i: int) -> Option<(JsonS, int)>
    decreases s.len() - i, 2int,
    when 0 <= i <= s.len()
{
    if i >= s.len() {
        None
    } else {
        let b = s[i];
        if b == 0x7B {
            match sp_parse_members(s, i + 1) {
                Some(r) => Some((JsonS::Obj(r.0), r.1)),
                None => None,
            }
        } else if b == 0x22 {
            match sp_parse_string_body(s, i + 1) {
                Some(r) => Some((JsonS::Str(r.0), r.1)),
                None => None,
            }
        } else if b == 0x74 {
            if i + 4 <= s.len() && s[i + 1] == 0x72 && s[i + 2] == 0x75 && s[i + 3] == 0x65 {
                Some((JsonS::Bool(true), i + 4))
            } else {
                None
            }
        } else if b == 0x66 {
            if i + 5 <= s.len() && s[i + 1] == 0x61 && s[i + 2] == 0x6C && s[i + 3] == 0x73 && s[i
                + 4] == 0x65 {
                Some((JsonS::Bool(false), i + 5))
            } else {
                None
            }
        } else if b == 0x6E {
            if i + 4 <= s.len() && s[i + 1] == 0x75 && s[i + 2] == 0x6C && s[i + 3] == 0x6C {
                Some((JsonS::Null, i + 4))
            } else {
                None
            }
        } else if b == 0x2D || is_digit(b) {
            match sp_parse_number(s, i) {
                Some(r) => Some((JsonS::Num(r.0), r.1)),
                None => None,
            }
        } else {
            None
        }
    }
}

/// One `"key" : value` pair starting exactly at `i`.
pub open spec fn sp_parse_pair(s: Seq<u8>, i: int) -> Option<((Seq<u8>, JsonS), int)>
    decreases s.len() - i, 0int,
    when 0 <= i <= s.len()
{
    if i < s.len() && s[i] == 0x22 {
        match sp_parse_string_body(s, i + 1) {
            None => None,
            Some(kr) => if !(i + 1 < kr.1 <= s.len()) {
                None
            } else {
                let j2 = sp_skip_ws(s, kr.1);
                if !(kr.1 <= j2 <= s.len()) {
                    None
                } else if j2 < s.len() && s[j2] == 0x3A {
                    let j3 = sp_skip_ws(s, j2 + 1);
                    if !(j2 + 1 <= j3 <= s.len()) {
                        None
                    } else {
                        match sp_parse_value(s, j3) {
                            None => None,
                            Some(vr) => Some(((kr.0, vr.0), vr.1)),
                        }
                    }
                } else {
                    None
                }
            },
        }
    } else {
        None
    }
}

/// The entries of an object, starting just after the opening brace, and the
/// position after the closing brace.
pub open spec fn sp_parse_members(s: Seq<u8>, i: int) -> Option<(Seq<(Seq<u8>, JsonS)>, int)>
    decreases s.len() - i, 1int,
    when 0 <= i <= s.len()
{
    let j = sp_skip_ws(s, i);
    if !(i <= j <= s.len()) {
        None
    } else if j < s.len() && s[j] == 0x7D {
        Some((Seq::empty(), j + 1))
    } else {
        match sp_parse_pair(s, j) {
            None => None,
            Some(pr) => if !(j < pr.1 <= s.len()) {
                None
            } else {
                match sp_parse_more(s, pr.1) {
                    None => None,
                    Some(rr) => Some((seq![pr.0] + rr.0, rr.1)),
                }
            },
        }
    }
}

/// The remaining entries after one pair: a comma and another pair, repeated,
/// then the closing brace.
pub open spec fn sp_parse_more(s: Seq<u8>, i: int) -> Option<(Seq<(Seq<u8>, JsonS)>, int)>
    decreases s.len() - i, 2int,
    when 0 <= i <= s.len()
{
    let j = sp_skip_ws(s, i);
    if !(i <= j <= s.len()) {
        None
    } else if j < s.len() && s[j] == 0x7D {
        Some((Seq::empty(), j + 1))
    } else if j < s.len() && s[j] == 0x2C {
        let j2 = sp_skip_ws(s, j + 1);
        if !(j + 1 <= j2 <= s.len()) {
            None
        } else {
            match sp_parse_pair(s, j2) {
                None => None,
                Some(pr) => if !(j2 < pr.1 <= s.len()) {
                    None
                } else {
                    match sp_parse_more(s, pr.1) {
                        None => None,
                        Some(rr) => Some((seq![pr.0] + rr.0, rr.1)),
                    }
                },
            }
        }
    } else {
        None
    }
}

/// The whole text: optional whitespace, one value, optional whitespace, end.
pub open spec fn sp_parse_json(s: Seq<u8>) -> Option<JsonS> {
    let i = sp_skip_ws(s, 0);
    if !(0 <= i <= s.len()) {
        None
    } else {
        match sp_parse_value(s, i) {
            None => None,
            Some(vr) => if !(0 <= vr.1 <= s.len()) {
                None
            } else if sp_skip_ws(s, vr.1) == s.len() {
                Some(vr.0)
            } else {
                None
            },
        }
    }
}

fn skip_ws(s: &Vec<u8>, i: usize) -> (r: usize)
    requires
        i <= s@.len(),
    ensures
        r == sp_skip_ws(s@, i as int),
        i <= r <= s@.len(),
{
    let n = s.len();
    let mut j = i;
    while j < n && (s[j] == 0x20 || s[j] == 0x09 || s[j] == 0x0A || s[j] == 0x0D)
        invariant
            i <= j <= n,
            n == s@.len(),
            sp_skip_ws(s@, i as int) == sp_skip_ws(s@, j as int),
        decreases n - j,
    {
        j = j + 1;
    }
    j
}

fn scan_digits(s: &Vec<u8>, i: usize) -> (r: usize)
    requires
        i <= s@.len(),
    ensures
        r == sp_scan_digits(s@, i as int),
        i <= r <= s@.len(),
{
    let n = s.len();
    let mut j = i;
    while j < n && 0x30 <= s[j] && s[j] <= 0x39
        invariant
            i <= j <= n,
            n == s@.len(),
            sp_scan_digits(s@, i as int) == sp_scan_digits(s@, j as int),
        decreases n - j,
    {
        j = j + 1;
    }
    j
}

fn escape_val(b: u8) -> (r: Option<u8>)
    ensures
        r == sp_escape(b),
{
    if b == 0x22 {
        Some(0x22)
    } else if b == 0x5C {
        Some(0x5C)
    } else if b == 0x2F {
        Some(0x2F)
    } else if b == 0x62 {
        Some(0x08)
    } else if b == 0x66 {
        Some(0x0C)
    } else if b == 0x6E {
        Some(0x0A)
    } else if b == 0x72 {
        Some(0x0D)
    } else if b == 0x74 {
        Some(0x09)
    } else {
        None
    }
}

fn parse_string_body(s: &Vec<u8>, i: usize) -> (r: Option<(Vec<u8>, usize)>)
    requires
        i <= s@.len(),
    ensures
        match r {
            Some(t) => sp_parse_string_body(s@, i as int) == Some((t.0@, t.1 as int)) && i < t.1
                <= s@.len(),
            None => sp_parse_string_body(s@, i as int) is None,
        },
{
    let n = s.len();
    let mut out: Vec<u8> = Vec::new();
    let mut j = i;
    while j < n
        invariant
            i <= j <= n,
            n == s@.len(),
            match sp_parse_string_body(s@, j as int) {
                Some(r) => sp_parse_string_body(s@, i as int) == Some((out@ + r.0, r.1)),
                None => sp_parse_string_body(s@, i as int) is None,
            },
        decreases n - j,
    {
        let b = s[j];
        if b == 0x22 {
            proof {
                assert(sp_parse_string_body(s@, j as int) == Some(
                    (Seq::<u8>::empty(), j + 1 as int),
                ));
                assert(out@ + Seq::<u8>::empty() =~= out@);
            }
            return Some((out, j + 1));
        } else if b == 0x5C {
            if n - j < 2 {
                assert(sp_parse_string_body(s@, j as int) is None);
                return None;
            }
            match escape_val(s[j + 1]) {
                Some(c) => {
                    let ghost old_out = out@;
                    out.push(c);
                    proof {
                        assert forall|t: Seq<u8>| true implies old_out + (seq![c] + t) =~= out@
                            + t by {}
                    }
                    j = j + 2;
                },
                None => {
                    return None;
                },
            }
        } else if b < 0x20 {
            return None;
        } else {
            let ghost old_out = out@;
            out.push(b);
            proof {
                assert forall|t: Seq<u8>| true implies old_out + (seq![b] + t) =~= out@ + t by {}
            }
            j = j + 1;
        }
    }
    assert(sp_parse_string_body(s@, j as int) is None);
    None
}

fn parse_number(s: &Vec<u8>, i: usize) -> (r: Option<(Vec<u8>, usize)>)
    requires
        i <= s@.len(),
    ensures
        match r {
            Some(t) => sp_parse_number(s@, i as int) == Some((t.0@, t.1 as int)) && i < t.1
                <= s@.len(),
            None => sp_parse_number(s@, i as int) is None,
        },
{
    let n = s.len();
    let j0 = if i < n && s[i] == 0x2D {
        i + 1
    } else {
        i
    };
    let j1 = scan_digits(s, j0);
    if j1 == j0 {
        return None;
    }
    let j2 = if j1 < n && s[j1] == 0x2E {
        let k = scan_digits(s, j1 + 1);
        if k == j1 + 1 {
            return None;
        }
        k
    } else {
        j1
    };
    let j3 = if j2 < n && (s[j2] == 0x65 || s[j2] == 0x45) {
        let e0 = if j2 + 1 < n && (s[j2 + 1] == 0x2B || s[j2 + 1] == 0x2D) {
            j2 + 2
        } else {
            j2 + 1
        };
        let k = scan_digits(s, e0);
        if k == e0 {
            return None;
        }
        k
    } else {
        j2
    };
    let mut lex: Vec<u8> = Vec::new();
    let mut t = i;
    while t < j3
        invariant
            i <= t <= j3 <= n,
            n == s@.len(),
            lex@ == s@.subrange(i as int, t as int),
        decreases j3 - t,
    {
        lex.push(s[t]);
        assert(lex@ =~= s@.subrange(i as int, t + 1 as int));
        t = t + 1;
    }
    Some((lex, j3))
}

fn parse_value(s: &Vec<u8>, i: usize) -> (r: Option<(Json, usize)>)
    requires
        i <= s@.len(),
    ensures
        match r {
            Some(t) => sp_parse_value(s@, i as int) == Some((view_json(t.0), t.1 as int)) && i < t.1
                <= s@.len(),
            None => sp_parse_value(s@, i as int) is None,
        },
    decreases s@.len() - i, 2int,
{
    let n = s.len();
    if i >= n {
        return None;
    }
    let b = s[i];
    if b == 0x7B {
        match parse_members(s, i + 1) {
            Some((es, j)) => Some((Json::Obj(es), j)),
            None => None,
        }
    } else if b == 0x22 {
        match parse_string_body(s, i + 1) {
            Some((t, j)) => Some((Json::Str(t), j)),
            None => None,
        }
    } else if b == 0x74 {
        if n - i >= 4 && s[i + 1] == 0x72 && s[i + 2] == 0x75 && s[i + 3] == 0x65 {
            Some((Json::Bool(true), i + 4))
        } else {
            None
        }
    } else if b == 0x66 {
        if n - i >= 5 && s[i + 1] == 0x61 && s[i + 2] == 0x6C && s[i + 3] == 0x73 && s[i + 4]
            == 0x65 {
            Some((Json::Bool(false), i + 5))
        } else {
            None
        }
    } else if b == 0x6E {
        if n - i >= 4 && s[i + 1] == 0x75 && s[i + 2] == 0x6C && s[i + 3] == 0x6C {
            Some((Json::Null, i + 4))
        } else {
            None
        }
    } else if b == 0x2D || (0x30 <= b && b <= 0x39) {
        match parse_number(s, i) {
            Some((t, j)) => Some((Json::Num(t), j)),
            None => None,
        }
    } else {
        None
    }
}

fn parse_pair(s: &Vec<u8>, i: usize) -> (r: Option<((Vec<u8>, Json), usize)>)
    requires
        i <= s@.len(),
    ensures
        match r {
            Some(t) => sp_parse_pair(s@, i as int) == Some(
                ((t.0.0@, view_json(t.0.1)), t.1 as int),
            ) && i < t.1 <= s@.len(),
            None => sp_parse_pair(s@, i as int) is None,
        },
    decreases s@.len() - i, 0int,
{
    if i < s.len() && s[i] == 0x22 {
        match parse_string_body(s, i + 1) {
            None => None,
            Some((k, j)) => {
                let j2 = skip_ws(s, j);
                if j2 < s.len() && s[j2] == 0x3A {
                    let j3 = skip_ws(s, j2 + 1);
                    match parse_value(s, j3) {
                        None => None,
                        Some((v, j4)) => Some(((k, v), j4)),
                    }
                } else {
                    None
                }
            },
        }
    } else {
        None
    }
}

fn parse_members(s: &Vec<u8>, i: usize) -> (r: Option<(Vec<(Vec<u8>, Json)>, usize)>)
    requires
        i <= s@.len(),
    ensures
        match r {
            Some(t) => sp_parse_members(s@, i as int) == Some((view_entries(t.0), t.1 as int)) && i
                < t.1 <= s@.len(),
            None => sp_parse_members(s@, i as int) is None,
        },
    decreases s@.len() - i, 1int,
{
    let j = skip_ws(s, i);
    if j < s.len() && s[j] == 0x7D {
        let es: Vec<(Vec<u8>, Json)> = Vec::new();
        proof {
            assert(view_entries(es) =~= Seq::<(Seq<u8>, JsonS)>::empty());
        }
        return Some((es, j + 1));
    }
    match parse_pair(s, j) {
        None => None,
        Some((p, j2)) => {
            match parse_more(s, j2) {
                None => None,
                Some((rest, j3)) => {
                    let ghost pk = p.0@;
                    let ghost pv = view_json(p.1);
                    let ghost old_rest = rest;
                    let mut out = rest;
                    out.insert(0, p);
                    proof {
                        assert forall|t: int| 0 <= t < out@.len() implies view_entries(out)[t] == (
                        seq![(pk, pv)] + view_entries(old_rest))[t] by {
                            if t > 0 {
                                assert(out@[t] == old_rest@[t - 1]);
                            }
                        }
                        assert(view_entries(out) =~= seq![(pk, pv)] + view_entries(old_rest));
                    }
                    Some((out, j3))
                },
            }
        },
    }
}

fn parse_more(s: &Vec<u8>, i: usize) -> (r: Option<(Vec<(Vec<u8>, Json)>, usize)>)
    requires
        i <= s@.len(),
    ensures
        match r {
            Some(t) => sp_parse_more(s@, i as int) == Some((view_entries(t.0), t.1 as int)) && i
                < t.1 <= s@.len(),
            None => sp_parse_more(s@, i as int) is None,
        },
    decreases s@.len() - i, 2int,
{
    let j = skip_ws(s, i);
    if j < s.len() && s[j] == 0x7D {
        let es: Vec<(Vec<u8>, Json)> = Vec::new();
        proof {
            assert(view_entries(es) =~= Seq::<(Seq<u8>, JsonS)>::empty());
        }
        return Some((es, j + 1));
    }
    if j < s.len() && s[j] == 0x2C {
        let j2 = skip_ws(s, j + 1);
        match parse_pair(s, j2) {
            None => None,
            Some((p, j3)) => {
                match parse_more(s, j3) {
                    None => None,
                    Some((rest, j4)) => {
                        let ghost pk = p.0@;
                        let ghost pv = view_json(p.1);
                        let ghost old_rest = rest;
                        let mut out = rest;
                        out.insert(0, p);
                        proof {
                            assert forall|t: int| 0 <= t < out@.len() implies view_entries(out)[t]
                                == (seq![(pk, pv)] + view_entries(old_rest))[t] by {
                                if t > 0 {
                                    assert(out@[t] == old_rest@[t - 1]);
                                }
                            }
                            assert(view_entries(out) =~= seq![(pk, pv)] + view_entries(old_rest));
                        }
                        Some((out, j4))
                    },
                }
            },
        }
    } else {
        None
    }
}

/// Parse a whole payload text.
pub fn parse_json(s: &Vec<u8>) -> (r: Result<Json, ParseError>)
    ensures
        match r {
            Ok(v) => sp_parse_json(s@) == Some(view_json(v)),
            Err(_) => sp_parse_json(s@) is None,
        },
{
    let i = skip_ws(s, 0);
    match parse_value(s, i) {
        None => Err(ParseError::Malformed),
        Some((v, j)) => {
            let k = skip_ws(s, j);
            if k == s.len() {
                Ok(v)
            } else {
                Err(ParseError::Malformed)
            }
        },
    }
}

} // verus!
