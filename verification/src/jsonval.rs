//! The structured form of a decoded payload or request envelope: a small JSON
//! value tree over raw bytes. Numbers keep their lexeme, so the verified core
//! never holds a float; a caller that wants a numeric reading converts the
//! lexeme itself.

use vstd::prelude::*;

verus! {

broadcast use vstd::std_specs::vec::axiom_vec_index_decreases;

/// A structured value. Strings and object keys are raw UTF-8 bytes; a number
/// keeps the characters it was written with.
pub enum Json {
    Null,
    Bool(bool),
    Num(Vec<u8>),
    Str(Vec<u8>),
    Obj(Vec<(Vec<u8>, Json)>),
}

/// The mathematical shape of a `Json` value.
pub enum JsonS {
    Null,
    Bool(bool),
    Num(Seq<u8>),
    Str(Seq<u8>),
    Obj(Seq<(Seq<u8>, JsonS)>),
}

pub open spec fn view_json(j: Json) -> JsonS
    decreases j, 1int,
{
    match j {
        Json::Null => JsonS::Null,
        Json::Bool(b) => JsonS::Bool(b),
        Json::Num(t) => JsonS::Num(t@),
        Json::Str(t) => JsonS::Str(t@),
        Json::Obj(es) => JsonS::Obj(view_entries(es)),
    }
}

/// The mathematical shape of an object's entry list.
pub open spec fn view_entries(es: Vec<(Vec<u8>, Json)>) -> Seq<(Seq<u8>, JsonS)>
    decreases es, 0int,
{
    // the range test keeps the recursion on entries of `es`, which the
    // termination check needs; out of range the closure's value is never read
    Seq::new(
        es@.len(),
        |i: int|
            if 0 <= i < es@.len() {
                (es@[i].0@, view_json(es@[i].1))
            } else {
                (Seq::empty(), JsonS::Null)
            },
    )
}

/// First entry of `es` at or after `i` whose key is `k`.
pub open spec fn sp_get_from(es: Seq<(Seq<u8>, JsonS)>, k: Seq<u8>, i: int) -> Option<JsonS>
    decreases es.len() - i,
    when 0 <= i <= es.len()
{
    if i >= es.len() {
        None
    } else if es[i].0 == k {
        Some(es[i].1)
    } else {
        sp_get_from(es, k, i + 1)
    }
}

/// Field lookup: the first entry with key `k` of an object, nothing of any
/// other value.
pub open spec fn sp_get(s: JsonS, k: Seq<u8>) -> Option<JsonS> {
    match s {
        JsonS::Obj(es) => sp_get_from(es, k, 0),
        _ => None,
    }
}

/// Field lookup that accepts only a string value.
pub open spec fn sp_get_str(s: JsonS, k: Seq<u8>) -> Option<Seq<u8>> {
    match sp_get(s, k) {
        Some(JsonS::Str(t)) => Some(t),
        _ => None,
    }
}

/// Field lookup that accepts only a number value, giving its lexeme.
pub open spec fn sp_get_num(s: JsonS, k: Seq<u8>) -> Option<Seq<u8>> {
    match sp_get(s, k) {
        Some(JsonS::Num(t)) => Some(t),
        _ => None,
    }
}

pub open spec fn is_digit(b: u8) -> bool {
    0x30 <= b && b <= 0x39
}

pub open spec fn all_digits(s: Seq<u8>) -> bool {
    forall|i: int| 0 <= i < s.len() ==> is_digit(#[trigger] s[i])
}

/// Value of a digit string read in base ten.
pub open spec fn sp_dec_val(s: Seq<u8>) -> int
    decreases s.len(),
{
    if s.len() == 0 {
        0
    } else {
        sp_dec_val(s.drop_last()) * 10 + (s.last() - 0x30)
    }
}

/// The unsigned reading of a number lexeme: defined exactly when the lexeme is
/// one or more plain digits and the value fits in a `u64`.
pub open spec fn sp_num_u64(s: Seq<u8>) -> Option<u64> {
    if s.len() > 0 && all_digits(s) && sp_dec_val(s) <= u64::MAX {
        Some(sp_dec_val(s) as u64)
    } else {
        None
    }
}

/// Byte-wise equality of two byte vectors.
pub fn bytes_eq(a: &Vec<u8>, b: &Vec<u8>) -> (r: bool)
    ensures
        r == (a@ == b@),
{
    if a.len() != b.len() {
        assert(a@ != b@);
        return false;
    }
    let n = a.len();
    let mut i: usize = 0;
    while i < n
        invariant
            n == a@.len() == b@.len(),
            i <= n,
            forall|j: int| 0 <= j < i ==> a@[j] == b@[j],
        decreases n - i,
    {
        if a[i] != b[i] {
            return false;
        }
        i = i + 1;
    }
    assert(a@ =~= b@);
    true
}

/// Look a key up in an object; the first matching entry wins.
pub fn json_get<'a>(j: &'a Json, k: &Vec<u8>) -> (r: Option<&'a Json>)
    ensures
        match r {
            Some(v) => sp_get(view_json(*j), k@) == Some(view_json(*v)),
            None => sp_get(view_json(*j), k@) is None,
        },
{
    match j {
        Json::Obj(es) => {
            let ghost ves = (match view_json(*j) {
                JsonS::Obj(e) => e,
                _ => Seq::empty(),
            });
            let n = es.len();
            let mut i: usize = 0;
            while i < n
                invariant
                    n == es@.len(),
                    i <= n,
                    j matches Json::Obj(e2) && e2 == *es,
                    view_json(*j) == JsonS::Obj(ves),
                    ves.len() == es@.len(),
                    forall|t: int|
                        0 <= t < ves.len() ==> #[trigger] ves[t] == (es@[t].0@, view_json(
                            es@[t].1,
                        )),
                    sp_get_from(ves, k@, 0) == sp_get_from(ves, k@, i as int),
                decreases n - i,
            {
                if bytes_eq(&es[i].0, k) {
                    return Some(&es[i].1);
                }
                i = i + 1;
            }
            None
        },
        _ => None,
    }
}

/// Look a key up and keep only a string value.
pub fn json_get_str<'a>(j: &'a Json, k: &Vec<u8>) -> (r: Option<&'a Vec<u8>>)
    ensures
        match r {
            Some(v) => sp_get_str(view_json(*j), k@) == Some(v@),
            None => sp_get_str(view_json(*j), k@) is None,
        },
{
    match json_get(j, k) {
        Some(Json::Str(t)) => Some(t),
        _ => None,
    }
}

/// Look a key up and keep only a number's lexeme.
pub fn json_get_num<'a>(j: &'a Json, k: &Vec<u8>) -> (r: Option<&'a Vec<u8>>)
    ensures
        match r {
            Some(v) => sp_get_num(view_json(*j), k@) == Some(v@),
            None => sp_get_num(view_json(*j), k@) is None,
        },
{
    match json_get(j, k) {
        Some(Json::Num(t)) => Some(t),
        _ => None,
    }
}

proof fn lemma_dec_val_prefix_le(s: Seq<u8>, i: int)
    requires
        0 <= i <= s.len(),
        all_digits(s),
    ensures
        sp_dec_val(s.subrange(0, i)) <= sp_dec_val(s),
    decreases s.len() - i,
{
    if i == s.len() {
        assert(s.subrange(0, i) =~= s);
    } else {
        lemma_dec_val_prefix_le(s, i + 1);
        let p = s.subrange(0, i);
        let q = s.subrange(0, i + 1);
        assert(q.drop_last() =~= p);
        assert(q.last() == s[i]);
        assert(sp_dec_val(q) == sp_dec_val(p) * 10 + (s[i] - 0x30));
        assert(sp_dec_val(p) >= 0) by {
            lemma_dec_val_nonneg(p);
        }
    }
}

proof fn lemma_dec_val_nonneg(s: Seq<u8>)
    requires
        all_digits(s),
    ensures
        sp_dec_val(s) >= 0,
    decreases s.len(),
{
    if s.len() > 0 {
        assert(all_digits(s.drop_last())) by {
            assert(forall|i: int|
                0 <= i < s.len() - 1 ==> #[trigger] s.drop_last()[i] == s[i]);
        }
        lemma_dec_val_nonneg(s.drop_last());
    }
}

/// Read a number lexeme as a `u64`, exactly when `sp_num_u64` is defined.
pub fn parse_u64(s: &Vec<u8>) -> (r: Option<u64>)
    ensures
        r == sp_num_u64(s@),
{
    if s.len() == 0 {
        return None;
    }
    let n = s.len();
    let mut acc: u64 = 0;
    let mut i: usize = 0;
    while i < n
        invariant
            n == s@.len(),
            0 < n,
            i <= n,
            all_digits(s@.subrange(0, i as int)),
            acc == sp_dec_val(s@.subrange(0, i as int)),
        decreases n - i,
    {
        let b = s[i];
        if !(0x30 <= b && b <= 0x39) {
            assert(!all_digits(s@));
            return None;
        }
        let d = (b - 0x30) as u64;
        if acc > (u64::MAX - d) / 10 {
            proof {
                let q = s@.subrange(0, i + 1 as int);
                assert(q.drop_last() =~= s@.subrange(0, i as int));
                assert(sp_dec_val(q) == acc * 10 + d > u64::MAX);
                if all_digits(s@) {
                    lemma_dec_val_prefix_le(s@, i + 1);
                }
            }
            return None;
        }
        let acc2 = acc * 10 + d;
        proof {
            let q = s@.subrange(0, i + 1 as int);
            assert(q.drop_last() =~= s@.subrange(0, i as int));
            assert(q.last() == s@[i as int]);
            assert(all_digits(q));
            assert(sp_dec_val(q) == acc * 10 + d);
        }
        acc = acc2;
        i = i + 1;
    }
    assert(s@.subrange(0, n as int) =~= s@);
    Some(acc)
}

} // verus!
