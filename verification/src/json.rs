//! A JSON document as the backtest reads a Strategy Spec: objects are looked up by key,
//! numbers keep their text and, where they are one, their value as a `u64`.
use crate::decimal::{decimal_parse, opt_view, Dec};
use crate::text::str_eq;
use vstd::prelude::*;

verus! {

/// A JSON value. An object keeps its entries in document order, with distinct keys.
#[derive(Debug)]
pub enum JsonValue {
    Null,
    Bool(bool),
    /// A number: its text, and its value where it is an integer (as `serde_json` holds one:
    /// from `i64::MIN` to `u64::MAX`).
    Number(String, Option<i128>),
    Text(String),
    Array(Vec<JsonValue>),
    Object(Vec<(String, JsonValue)>),
}

/// The index of the first entry at or after `i` whose key is `key` (the length when none is).
pub open spec fn first_key(entries: Seq<(String, JsonValue)>, key: Seq<char>, i: int) -> int
    decreases entries.len() - i,
{
    if 0 <= i < entries.len() && entries[i].0@ != key {
        first_key(entries, key, i + 1)
    } else {
        i
    }
}

pub proof fn lemma_first_key(entries: Seq<(String, JsonValue)>, key: Seq<char>, i: int)
    requires
        0 <= i <= entries.len(),
    ensures
        i <= first_key(entries, key, i) <= entries.len(),
        first_key(entries, key, i) < entries.len() ==> entries[first_key(entries, key, i)].0@
            == key,
    decreases entries.len() - i,
{
    if i < entries.len() && entries[i].0@ != key {
        lemma_first_key(entries, key, i + 1);
    }
}

/// `value.get(key)`: the member of an object, `None` for a missing key or a value that is not
/// an object.
pub open spec fn json_get(v: JsonValue, key: Seq<char>) -> Option<JsonValue> {
    match v {
        JsonValue::Object(entries) => {
            let p = first_key(entries@, key, 0);
            if p < entries@.len() {
                Some(entries@[p].1)
            } else {
                None
            }
        },
        _ => None,
    }
}

/// The value reached from `v` through the keys of `path`, one object level per key.
pub open spec fn json_path(v: JsonValue, path: Seq<Seq<char>>) -> Option<JsonValue>
    decreases path.len(),
{
    if path.len() == 0 {
        Some(v)
    } else {
        match json_get(v, path[0]) {
            Some(w) => json_path(w, path.drop_first()),
            None => None,
        }
    }
}

/// `Value::as_str`.
pub open spec fn json_text(v: Option<JsonValue>) -> Option<Seq<char>> {
    match v {
        Some(JsonValue::Text(s)) => Some(s@),
        _ => None,
    }
}

/// The items of an array, empty for anything else (as iterating `value.as_array()` is).
pub open spec fn json_items(v: Option<JsonValue>) -> Seq<JsonValue> {
    match v {
        Some(JsonValue::Array(xs)) => xs@,
        _ => Seq::empty(),
    }
}

/// A decimal at a place of the document: a string parsed as a decimal, or a number whose
/// text parses as one.
pub open spec fn json_decimal(v: Option<JsonValue>) -> Option<(int, nat)> {
    match v {
        Some(JsonValue::Text(s)) => decimal_parse(s@),
        Some(JsonValue::Number(t, _)) => decimal_parse(t@),
        _ => None,
    }
}

/// `Value::as_u64`.
pub open spec fn json_u64(v: Option<JsonValue>) -> Option<u64> {
    match v {
        Some(JsonValue::Number(_, Some(x))) => if 0 <= x <= u64::MAX {
            Some(x as u64)
        } else {
            None
        },
        _ => None,
    }
}

/// `Value::as_i64`.
pub open spec fn json_i64(v: Option<JsonValue>) -> Option<i64> {
    match v {
        Some(JsonValue::Number(_, Some(x))) => if i64::MIN <= x <= i64::MAX {
            Some(x as i64)
        } else {
            None
        },
        _ => None,
    }
}

/// A count at a place of the document: a number that is a `u64`, or a string that parses as
/// a `usize`.
pub open spec fn json_count(v: Option<JsonValue>) -> Option<usize> {
    match v {
        Some(JsonValue::Number(_, _)) => match json_u64(v) {
            Some(x) => Some(x as usize),
            None => None,
        },
        Some(JsonValue::Text(s)) => parse_usize_text(s@),
        _ => None,
    }
}

/// The value of a run of decimal digits.
pub open spec fn digits_value(s: Seq<char>) -> int
    decreases s.len(),
{
    if s.len() == 0 {
        0
    } else {
        digits_value(s.drop_last()) * 10 + (s.last() as int - 48)
    }
}

pub open spec fn all_digits(s: Seq<char>) -> bool {
    forall|i: int| 0 <= i < s.len() ==> '0' <= #[trigger] s[i] <= '9'
}

/// `usize::from_str`: an optional `+`, then one or more decimal digits, no larger than
/// `usize::MAX`.
pub open spec fn parse_usize_text(s: Seq<char>) -> Option<usize> {
    let d = if s.len() > 0 && s[0] == '+' {
        s.drop_first()
    } else {
        s
    };
    if d.len() > 0 && all_digits(d) && digits_value(d) <= usize::MAX {
        Some(digits_value(d) as usize)
    } else {
        None
    }
}

proof fn lemma_digits_value_nonneg(s: Seq<char>)
    requires
        all_digits(s),
    ensures
        digits_value(s) >= 0,
    decreases s.len(),
{
    if s.len() > 0 {
        assert(all_digits(s.drop_last())) by {
            assert forall|i: int| 0 <= i < s.drop_last().len() implies '0'
                <= #[trigger] s.drop_last()[i] <= '9' by {
                assert(s.drop_last()[i] == s[i]);
            }
        }
        lemma_digits_value_nonneg(s.drop_last());
    }
}

/// Appending digits never makes the value smaller.
proof fn lemma_digits_growth(s: Seq<char>, start: int, a: int, b: int)
    requires
        0 <= start <= a <= b <= s.len(),
        all_digits(s.subrange(start, a)),
    ensures
        all_digits(s.subrange(start, b)) ==> digits_value(s.subrange(start, b)) >= digits_value(
            s.subrange(start, a),
        ),
    decreases b - a,
{
    if a < b && all_digits(s.subrange(start, b)) {
        let sb = s.subrange(start, b);
        let sb1 = s.subrange(start, b - 1);
        assert(sb.drop_last() =~= sb1);
        assert(all_digits(sb1)) by {
            assert forall|j: int| 0 <= j < sb1.len() implies '0' <= #[trigger] sb1[j] <= '9' by {
                assert(sb1[j] == sb[j]);
            }
        }
        lemma_digits_growth(s, start, a, b - 1);
        lemma_digits_value_nonneg(sb1);
        assert('0' <= sb.last() <= '9');
    }
}

/// Parses a decimal `usize` as `str::parse::<usize>` does.
pub fn parse_usize(s: &str) -> (r: Option<usize>)
    ensures
        r == parse_usize_text(s@),
{
    let n = s.unicode_len();
    let mut i: usize = 0;
    if n > 0 && s.get_char(0) == '+' {
        i = 1;
    }
    let ghost d = if s@.len() > 0 && s@[0] == '+' {
        s@.drop_first()
    } else {
        s@
    };
    assert(d =~= s@.subrange(i as int, n as int));
    if i == n {
        return None;
    }
    let mut value: usize = 0;
    let start = i;
    while i < n
        invariant
            n == s@.len(),
            start < n,
            start <= i <= n,
            d =~= s@.subrange(start as int, n as int),
            d == (if s@.len() > 0 && s@[0] == '+' {
                s@.drop_first()
            } else {
                s@
            }),
            all_digits(s@.subrange(start as int, i as int)),
            value == digits_value(s@.subrange(start as int, i as int)),
        decreases n - i,
    {
        let c = s.get_char(i);
        let k = c as u32;
        if k < 48 || k > 57 {
            assert(d[i - start] == c);
            assert(!('0' <= c <= '9'));
            assert(!all_digits(d));
            return None;
        }
        let ghost pre = s@.subrange(start as int, i as int);
        let ghost next = s@.subrange(start as int, i + 1);
        assert(next.drop_last() =~= pre);
        assert(next.last() == c);
        assert(all_digits(next)) by {
            assert forall|j: int| 0 <= j < next.len() implies '0' <= #[trigger] next[j] <= '9' by {
                if j < pre.len() {
                    assert(next[j] == pre[j]);
                }
            }
        }
        let digit = (k - 48) as usize;
        let grown = match value.checked_mul(10) {
            Some(t) => t.checked_add(digit),
            None => None,
        };
        match grown {
            Some(v) => {
                value = v;
            },
            None => {
                proof {
                    if all_digits(d) {
                        assert(s@.subrange(start as int, n as int) =~= d);
                        lemma_digits_growth(s@, start as int, i + 1, n as int);
                    }
                }
                return None;
            },
        }
        i = i + 1;
    }
    Some(value)
}

impl JsonValue {
    /// `Value::get` with a string key.
    pub fn get(&self, key: &str) -> (r: Option<&JsonValue>)
        ensures
            match r {
                Some(x) => json_get(*self, key@) == Some(*x),
                None => json_get(*self, key@) is None,
            },
    {
        match self {
            JsonValue::Object(entries) => {
                let mut i: usize = 0;
                while i < entries.len()
                    invariant
                        i <= entries@.len(),
                        *self == JsonValue::Object(*entries),
                        first_key(entries@, key@, 0) == first_key(entries@, key@, i as int),
                    decreases entries.len() - i,
                {
                    if str_eq(entries[i].0.as_str(), key) {
                        assert(first_key(entries@, key@, i as int) == i);
                        assert(json_get(*self, key@) == Some(entries@[i as int].1));
                        return Some(&entries[i].1);
                    }
                    i = i + 1;
                }
                None
            },
            _ => None,
        }
    }

    /// `Value::as_str`.
    pub fn as_str(&self) -> (r: Option<&str>)
        ensures
            match r {
                Some(s) => json_text(Some(*self)) == Some(s@),
                None => json_text(Some(*self)) is None,
            },
    {
        match self {
            JsonValue::Text(s) => Some(s.as_str()),
            _ => None,
        }
    }

    /// `Value::as_u64`.
    pub fn as_u64(&self) -> (r: Option<u64>)
        ensures
            r == json_u64(Some(*self)),
    {
        match self {
            JsonValue::Number(_, Some(x)) => {
                if *x >= 0 && *x <= 18446744073709551615i128 {
                    Some(*x as u64)
                } else {
                    None
                }
            },
            _ => None,
        }
    }

    /// `Value::as_i64`.
    pub fn as_i64(&self) -> (r: Option<i64>)
        ensures
            r == json_i64(Some(*self)),
    {
        match self {
            JsonValue::Number(_, Some(x)) => {
                if *x >= -9223372036854775808i128 && *x <= 9223372036854775807i128 {
                    Some(*x as i64)
                } else {
                    None
                }
            },
            _ => None,
        }
    }

    /// `Value::as_array`, as a slice that is empty for anything but an array.
    pub fn items(&self) -> (r: &[JsonValue])
        ensures
            r@ == json_items(Some(*self)),
    {
        match self {
            JsonValue::Array(xs) => xs.as_slice(),
            _ => &[],
        }
    }
}

/// The value at `path` below `v`.
pub fn get_path<'a>(v: &'a JsonValue, path: &[&str]) -> (r: Option<&'a JsonValue>)
    ensures
        match r {
            Some(x) => json_path(*v, path@.map_values(|k: &str| k@)) == Some(*x),
            None => json_path(*v, path@.map_values(|k: &str| k@)) is None,
        },
{
    let ghost keys = path@.map_values(|k: &str| k@);
    let mut cur = v;
    let mut i: usize = 0;
    assert(keys.skip(0) =~= keys);
    while i < path.len()
        invariant
            i <= path@.len(),
            keys == path@.map_values(|k: &str| k@),
            json_path(*v, keys) == json_path(*cur, keys.skip(i as int)),
        decreases path.len() - i,
    {
        let ghost rest = keys.skip(i as int);
        assert(rest[0] == path@[i as int]@);
        assert(rest.drop_first() =~= keys.skip(i + 1));
        match cur.get(path[i]) {
            Some(next) => {
                cur = next;
            },
            None => {
                return None;
            },
        }
        i = i + 1;
    }
    assert(keys.skip(i as int) =~= Seq::<Seq<char>>::empty());
    Some(cur)
}

/// The decimal at `path` below `v`, if there is one there.
pub fn parse_decimal_path(v: &JsonValue, path: &[&str]) -> (r: Option<Dec>)
    ensures
        opt_view(r) == json_decimal(json_path(*v, path@.map_values(|k: &str| k@))),
{
    match get_path(v, path) {
        Some(JsonValue::Text(s)) => Dec::parse(s.as_str()),
        Some(JsonValue::Number(t, _)) => Dec::parse(t.as_str()),
        _ => None,
    }
}

/// The count at `path` below `v`, if there is one there.
pub fn parse_usize_path(v: &JsonValue, path: &[&str]) -> (r: Option<usize>)
    ensures
        r == json_count(json_path(*v, path@.map_values(|k: &str| k@))),
{
    match get_path(v, path) {
        Some(x) => match x {
            JsonValue::Number(_, _) => match x.as_u64() {
                Some(n) => Some(n as usize),
                None => None,
            },
            JsonValue::Text(s) => parse_usize(s.as_str()),
            _ => None,
        },
        None => None,
    }
}

/// The text at `path` below `v`, if there is one there.
pub fn text_at<'a>(v: &'a JsonValue, path: &[&str]) -> (r: Option<&'a str>)
    ensures
        match r {
            Some(s) => json_text(json_path(*v, path@.map_values(|k: &str| k@))) == Some(s@),
            None => json_text(json_path(*v, path@.map_values(|k: &str| k@))) is None,
        },
{
    match get_path(v, path) {
        Some(x) => x.as_str(),
        None => None,
    }
}

/// The text of member `key` of `v`, if it is a string.
pub fn member_text<'a>(v: &'a JsonValue, key: &str) -> (r: Option<&'a str>)
    ensures
        match r {
            Some(s) => json_text(json_get(*v, key@)) == Some(s@),
            None => json_text(json_get(*v, key@)) is None,
        },
{
    match v.get(key) {
        Some(x) => x.as_str(),
        None => None,
    }
}

/// The items of member `key` of `v`, none unless it is an array.
pub fn member_items<'a>(v: &'a JsonValue, key: &str) -> (r: &'a [JsonValue])
    ensures
        r@ == json_items(json_get(*v, key@)),
{
    match v.get(key) {
        Some(x) => x.items(),
        None => &[],
    }
}

/// An optional text's contents.
pub open spec fn opt_text(x: Option<&str>) -> Option<Seq<char>> {
    match x {
        Some(s) => Some(s@),
        None => None,
    }
}

} // verus!
