//! Semi-structured records as the remote API returns them, and field lookup
//! by dot-separated paths. An absent field is `None`, never an error.
use vstd::prelude::*;
use crate::text::{decimal_of, format_decimal, str_eq};

verus! {

/// A structured value: what a JSON document holds.
pub enum JsonValue {
    Null,
    Bool(bool),
    /// A number, in the text the document wrote it with.
    Number(String),
    Str(String),
    Array(Vec<JsonValue>),
    /// Members in document order; keys are unique.
    Object(Vec<(String, JsonValue)>),
}

/// A fetched item: its structured value and its compact textual form.
pub struct Record {
    pub value: JsonValue,
    pub text: String,
}

/// The parts of `s` between occurrences of `sep`.
pub open spec fn split_on(s: Seq<char>, sep: char) -> Seq<Seq<char>>
    decreases s.len(),
{
    if s.len() == 0 {
        seq![Seq::empty()]
    } else {
        let p = split_on(s.drop_last(), sep);
        if s.last() == sep {
            p.push(Seq::empty())
        } else {
            p.update(p.len() - 1, p.last().push(s.last()))
        }
    }
}

/// The parts of a dot-separated path.
pub open spec fn split_dots(s: Seq<char>) -> Seq<Seq<char>> {
    split_on(s, '.')
}

/// Splits a string at each `sep`.
pub fn split_at_char(text: &str, sep: char) -> (r: Vec<String>)
    ensures
        r@.map_values(|p: String| p@) == split_on(text@, sep),
{
    let n = text.unicode_len();
    let mut parts: Vec<String> = Vec::new();
    let mut cur = String::new();
    let mut i: usize = 0;
    proof {
        assert(text@.subrange(0, 0) =~= Seq::<char>::empty());
        assert(parts@.map_values(|p: String| p@).push(cur@) =~= split_on(text@.subrange(0, 0), sep));
    }
    while i < n
        invariant
            n == text@.len(),
            i <= n,
            parts@.map_values(|p: String| p@).push(cur@) == split_on(text@.subrange(0, i as int), sep),
        decreases n - i,
    {
        let c = text.get_char(i);
        proof {
            assert(text@.subrange(0, i as int + 1).drop_last() == text@.subrange(0, i as int));
            assert(text@.subrange(0, i as int + 1).last() == c);
        }
        let ghost before = parts@.map_values(|p: String| p@).push(cur@);
        if c == sep {
            parts.push(cur);
            cur = String::new();
            proof {
                assert(parts@.map_values(|p: String| p@).push(cur@) =~= before.push(Seq::empty()));
            }
        } else {
            cur.push(c);
            proof {
                assert(parts@.map_values(|p: String| p@).push(cur@) =~= before.update(
                    before.len() - 1,
                    before.last().push(c),
                ));
            }
        }
        i = i + 1;
    }
    parts.push(cur);
    proof {
        assert(text@.subrange(0, n as int) == text@);
        assert(parts@.map_values(|p: String| p@) =~= split_on(text@, sep));
    }
    parts
}

/// Splits a path at each `.`.
pub fn split_path(path: &str) -> (r: Vec<String>)
    ensures
        r@.map_values(|p: String| p@) == split_dots(path@),
{
    split_at_char(path, '.')
}

pub open spec fn is_digit(c: char) -> bool {
    '0' <= c && c <= '9'
}

/// The value of a run of decimal digits.
pub open spec fn digits_value(s: Seq<char>) -> nat
    decreases s.len(),
{
    if s.len() == 0 {
        0
    } else {
        digits_value(s.drop_last()) * 10 + (s.last() as nat - '0' as nat) as nat
    }
}

/// A path part that reads as an array index: one or more digits whose value
/// fits in a `usize`.
pub open spec fn index_part(part: Seq<char>) -> Option<nat> {
    if part.len() > 0 && (forall|i: int| 0 <= i < part.len() ==> is_digit(#[trigger] part[i]))
        && digits_value(part) <= usize::MAX {
        Some(digits_value(part))
    } else {
        None
    }
}

/// Reads a path part as an array index.
pub fn parse_index(part: &str) -> (r: Option<usize>)
    ensures
        match index_part(part@) {
            Some(v) => r == Some(v as usize),
            None => r is None,
        },
{
    let n = part.unicode_len();
    if n == 0 {
        return None;
    }
    let mut v: usize = 0;
    let mut i: usize = 0;
    let mut overflow = false;
    while i < n
        invariant
            n == part@.len(),
            i <= n,
            forall|j: int| 0 <= j < i ==> is_digit(#[trigger] part@[j]),
            !overflow ==> v == digits_value(part@.subrange(0, i as int)),
            overflow ==> digits_value(part@.subrange(0, i as int)) > usize::MAX,
        decreases n - i,
    {
        let c = part.get_char(i);
        if !('0' <= c && c <= '9') {
            return None;
        }
        proof {
            assert(part@.subrange(0, i as int + 1).drop_last() == part@.subrange(0, i as int));
        }
        let d = (c as u32 - '0' as u32) as usize;
        if !overflow {
            if v > (usize::MAX - d) / 10 {
                overflow = true;
                proof {
                    assert(v * 10 + d > usize::MAX) by (nonlinear_arith)
                        requires
                            v > (usize::MAX - d) / 10,
                            d <= 9,
                    ;
                }
            } else {
                proof {
                    assert(v * 10 + d <= usize::MAX) by (nonlinear_arith)
                        requires
                            v <= (usize::MAX - d) / 10,
                            d <= 9,
                    ;
                }
                v = v * 10 + d;
            }
        } else {
            proof {
                let prev = digits_value(part@.subrange(0, i as int));
                assert(prev * 10 + d > usize::MAX) by (nonlinear_arith)
                    requires
                        prev > usize::MAX,
                ;
            }
        }
        i = i + 1;
    }
    proof {
        assert(part@.subrange(0, n as int) == part@);
    }
    if overflow {
        None
    } else {
        Some(v)
    }
}

/// The value that member `key` holds in an object's member list, if any.
pub open spec fn member(members: Seq<(String, JsonValue)>, key: Seq<char>) -> Option<JsonValue>
    decreases members.len(),
{
    if members.len() == 0 {
        None
    } else if members[0].0@ == key {
        Some(members[0].1)
    } else {
        member(members.drop_first(), key)
    }
}

/// One step along a path: an array element by index, or an object member by
/// key; anything else is absent.
pub open spec fn child(v: JsonValue, part: Seq<char>) -> Option<JsonValue> {
    match index_part(part) {
        Some(idx) => match v {
            JsonValue::Array(items) => if idx < items@.len() {
                Some(items@[idx as int])
            } else {
                None
            },
            _ => None,
        },
        None => match v {
            JsonValue::Object(members) => member(members@, part),
            _ => None,
        },
    }
}

/// The value at the end of a path, if every step exists.
pub open spec fn value_at(v: JsonValue, parts: Seq<Seq<char>>) -> Option<JsonValue>
    decreases parts.len(),
{
    if parts.len() == 0 {
        Some(v)
    } else {
        match child(v, parts[0]) {
            Some(c) => value_at(c, parts.drop_first()),
            None => None,
        }
    }
}

/// How a value is displayed in a table cell; `Null` is absent.
pub open spec fn display_of(v: JsonValue) -> Option<Seq<char>> {
    match v {
        JsonValue::Null => None,
        JsonValue::Bool(b) => Some(if b { "true"@ } else { "false"@ }),
        JsonValue::Number(t) => Some(t@),
        JsonValue::Str(s) => Some(s@),
        JsonValue::Array(items) => Some("["@ + decimal_of(items@.len()) + " items]"@),
        JsonValue::Object(_) => Some("[object]"@),
    }
}

/// The displayed text of the field at a dot-separated path, if present.
pub open spec fn field_text(v: JsonValue, path: Seq<char>) -> Option<Seq<char>> {
    match value_at(v, split_dots(path)) {
        Some(x) => display_of(x),
        None => None,
    }
}

pub(crate) fn find_member<'a>(members: &'a Vec<(String, JsonValue)>, key: &str) -> (r: Option<&'a JsonValue>)
    ensures
        match member(members@, key@) {
            Some(x) => r == Some(&x),
            None => r is None,
        },
{
    let mut i: usize = 0;
    proof {
        assert(members@.subrange(0, members@.len() as int) =~= members@);
    }
    while i < members.len()
        invariant
            i <= members@.len(),
            member(members@, key@) == member(members@.subrange(i as int, members@.len() as int), key@),
        decreases members@.len() - i,
    {
        proof {
            let rest = members@.subrange(i as int, members@.len() as int);
            assert(rest.drop_first() =~= members@.subrange(i as int + 1, members@.len() as int));
        }
        if str_eq(members[i].0.as_str(), key) {
            return Some(&members[i].1);
        }
        i = i + 1;
    }
    None
}

fn step<'a>(v: &'a JsonValue, part: &str) -> (r: Option<&'a JsonValue>)
    ensures
        match child(*v, part@) {
            Some(x) => r == Some(&x),
            None => r is None,
        },
{
    match parse_index(part) {
        Some(idx) => match v {
            JsonValue::Array(items) => {
                if idx < items.len() {
                    Some(&items[idx])
                } else {
                    None
                }
            },
            _ => None,
        },
        None => match v {
            JsonValue::Object(members) => find_member(members, part),
            _ => None,
        },
    }
}

/// The value at a dot-separated path.
pub fn value_at_path<'a>(item: &'a JsonValue, path: &str) -> (r: Option<&'a JsonValue>)
    ensures
        match value_at(*item, split_dots(path@)) {
            Some(x) => r == Some(&x),
            None => r is None,
        },
{
    let parts = split_path(path);
    let ghost ps = parts@.map_values(|p: String| p@);
    let mut cur: &JsonValue = item;
    let mut i: usize = 0;
    proof {
        assert(ps.subrange(0, ps.len() as int) =~= ps);
    }
    while i < parts.len()
        invariant
            ps == parts@.map_values(|p: String| p@),
            ps == split_dots(path@),
            i <= parts@.len(),
            value_at(*item, ps) == value_at(*cur, ps.subrange(i as int, ps.len() as int)),
        decreases parts@.len() - i,
    {
        proof {
            let rest = ps.subrange(i as int, ps.len() as int);
            assert(rest[0] == parts@[i as int]@);
            assert(rest.drop_first() =~= ps.subrange(i as int + 1, ps.len() as int));
        }
        match step(cur, parts[i].as_str()) {
            Some(next) => {
                cur = next;
            },
            None => {
                return None;
            },
        }
        i = i + 1;
    }
    proof {
        assert(ps.subrange(i as int, ps.len() as int) =~= Seq::<Seq<char>>::empty());
    }
    Some(cur)
}

/// The displayed text of a value.
pub fn display_value(v: &JsonValue) -> (r: Option<String>)
    ensures
        match display_of(*v) {
            Some(t) => r is Some && r->0@ == t,
            None => r is None,
        },
{
    match v {
        JsonValue::Null => None,
        JsonValue::Bool(b) => Some(
            if *b {
                String::from_str("true")
            } else {
                String::from_str("false")
            },
        ),
        JsonValue::Number(t) => Some(t.clone()),
        JsonValue::Str(s) => Some(s.clone()),
        JsonValue::Array(items) => {
            let mut s = String::from_str("[");
            let d = format_decimal(items.len() as u64);
            s.append(d.as_str());
            s.append(" items]");
            Some(s)
        },
        JsonValue::Object(_) => Some(String::from_str("[object]")),
    }
}

/// The displayed text of the field at a dot-separated path; `None` when the
/// field is absent or null.
pub fn extract_json_value(item: &JsonValue, path: &str) -> (r: Option<String>)
    ensures
        match field_text(*item, path@) {
            Some(t) => r is Some && r->0@ == t,
            None => r is None,
        },
{
    match value_at_path(item, path) {
        Some(v) => display_value(v),
        None => None,
    }
}

/// The string at a dot-separated path, when the value there is a string.
pub fn string_at(item: &JsonValue, path: &str) -> (r: Option<String>)
    ensures
        match value_at(*item, split_dots(path@)) {
            Some(JsonValue::Str(s)) => r is Some && r->0@ == s@,
            _ => r is None,
        },
{
    match value_at_path(item, path) {
        Some(JsonValue::Str(s)) => Some(s.clone()),
        _ => None,
    }
}

/// The value of a `u32` as `str::parse` reads it: an optional `+`, then one
/// or more digits, at most `u32::MAX`.
pub open spec fn u32_value(p: Seq<char>) -> Option<nat> {
    u32_digits(without_plus(p))
}

/// `p` without a leading `+`.
pub open spec fn without_plus(p: Seq<char>) -> Seq<char> {
    if p.len() > 0 && p[0] == '+' {
        p.drop_first()
    } else {
        p
    }
}

/// The value of one or more digits, when it fits in a `u32`.
pub open spec fn u32_digits(d: Seq<char>) -> Option<nat> {
    if d.len() > 0 && (forall|i: int| 0 <= i < d.len() ==> is_digit(#[trigger] d[i])) && digits_value(d)
        <= u32::MAX {
        Some(digits_value(d))
    } else {
        None
    }
}

fn parse_u32_text(p: &str) -> (r: Option<u32>)
    ensures
        match u32_value(p@) {
            Some(v) => r == Some(v as u32),
            None => r is None,
        },
{
    let n = p.unicode_len();
    let start: usize = if n > 0 && p.get_char(0) == '+' { 1 } else { 0 };
    let ghost d = without_plus(p@);
    proof {
        assert(d =~= p@.subrange(start as int, n as int));
    }
    let digits = p.substring_char(start, n);
    assert(digits@ == d);
    match parse_index(digits) {
        Some(v) => {
            assert(index_part(d) == Some(v as nat));
            assert(v as nat == digits_value(d));
            if v <= 4294967295 {
                assert(u32_value(p@) == Some(v as nat));
                Some(v as u32)
            } else {
                assert(u32_value(p@) is None);
                None
            }
        },
        None => {
            assert(index_part(d) is None);
            assert(usize::MAX >= u32::MAX);
            assert(u32_value(p@) is None);
            None
        },
    }
}

/// Index of the first part equal to `word`, from `i` on.
pub open spec fn first_part_from(parts: Seq<Seq<char>>, word: Seq<char>, i: nat) -> Option<nat>
    decreases parts.len() - i,
{
    if i >= parts.len() {
        None
    } else if parts[i as int] == word {
        Some(i)
    } else {
        first_part_from(parts, word, i + 1)
    }
}

/// The vCPU count a machine type name gives: `custom-N-M` names give `N`,
/// shared-core types their fraction, and `family-type-N` names `N`.
pub open spec fn vcpus_of(mt: Seq<char>) -> Option<Seq<char>> {
    let parts = split_on(mt, '-');
    let custom = if crate::text::starts_with_seq(mt, "custom-"@) || crate::text::starts_with_seq(
        mt,
        "n1-custom-"@,
    ) {
        match first_part_from(parts, "custom"@, 0) {
            Some(idx) => if idx + 1 < parts.len() && u32_value(parts[idx + 1int]) is Some {
                Some(parts[idx + 1int])
            } else {
                None
            },
            None => None,
        }
    } else {
        None
    };
    if custom is Some {
        custom
    } else if mt == "f1-micro"@ {
        Some("0.2"@)
    } else if mt == "g1-small"@ {
        Some("0.5"@)
    } else if mt == "e2-micro"@ {
        Some("0.25"@)
    } else if mt == "e2-small"@ {
        Some("0.5"@)
    } else if mt == "e2-medium"@ {
        Some("1"@)
    } else if parts.len() >= 3 && u32_value(parts.last()) is Some {
        Some(decimal_of(u32_value(parts.last())->0))
    } else {
        None
    }
}

/// The vCPU count of a machine type, when its name tells it.
pub fn extract_vcpus_from_machine_type(machine_type: &str) -> (r: Option<String>)
    ensures
        match vcpus_of(machine_type@) {
            Some(t) => r is Some && r->0@ == t,
            None => r is None,
        },
{
    let parts = split_at_char(machine_type, '-');
    let ghost ps = parts@.map_values(|p: String| p@);
    if crate::text::str_starts_with(machine_type, "custom-") || crate::text::str_starts_with(
        machine_type,
        "n1-custom-",
    ) {
        let mut i: usize = 0;
        let mut found: Option<usize> = None;
        while i < parts.len() && found.is_none()
            invariant
                ps == parts@.map_values(|p: String| p@),
                i <= parts@.len(),
                found is None ==> first_part_from(ps, "custom"@, 0) == first_part_from(ps, "custom"@, i as nat),
                found matches Some(f) ==> first_part_from(ps, "custom"@, 0) == Some(f as nat) && f < parts@.len(),
            decreases parts@.len() - i + if found is None { 1int } else { 0int },
        {
            assert(ps[i as int] == parts@[i as int]@);
            if crate::text::str_eq(parts[i].as_str(), "custom") {
                found = Some(i);
            } else {
                i = i + 1;
            }
        }
        match found {
            Some(idx) => {
                if idx + 1 < parts.len() {
                    assert(ps[idx + 1] == parts@[idx + 1]@);
                    if parse_u32_text(parts[idx + 1].as_str()).is_some() {
                        return Some(parts[idx + 1].clone());
                    }
                }
            },
            None => {},
        }
    }
    if crate::text::str_eq(machine_type, "f1-micro") {
        return Some(String::from_str("0.2"));
    }
    if crate::text::str_eq(machine_type, "g1-small") {
        return Some(String::from_str("0.5"));
    }
    if crate::text::str_eq(machine_type, "e2-micro") {
        return Some(String::from_str("0.25"));
    }
    if crate::text::str_eq(machine_type, "e2-small") {
        return Some(String::from_str("0.5"));
    }
    if crate::text::str_eq(machine_type, "e2-medium") {
        return Some(String::from_str("1"));
    }
    let n = parts.len();
    if n >= 3 {
        assert(ps[n - 1] == parts@[n - 1]@);
        match parse_u32_text(parts[n - 1].as_str()) {
            Some(v) => {
                return Some(format_decimal(v as u64));
            },
            None => {},
        }
    }
    None
}

/// Sets member `key` to `value`: the first member with that key is
/// replaced in place, else the member goes last.
pub(crate) fn set_member(m: &mut Vec<(String, JsonValue)>, key: &str, value: JsonValue)
    ensures
        member(final(m)@, key@) == Some(value),
        forall|k: Seq<char>| k != key@ ==> member(final(m)@, k) == member(old(m)@, k),
{
    let mut i: usize = 0;
    while i < m.len()
        invariant
            i <= m@.len(),
            m@ == old(m)@,
            forall|j: int| 0 <= j < i ==> #[trigger] m@[j].0@ != key@,
        decreases m@.len() - i,
    {
        if str_eq(m[i].0.as_str(), key) {
            let (k, _) = m.remove(i);
            let ghost e = (k, value);
            m.insert(i, (k, value));
            proof {
                assert(m@ =~= old(m)@.update(i as int, e));
                lemma_member_at(m@, key@, i as int);
                assert forall|kk: Seq<char>| kk != key@ implies member(m@, kk) == member(old(m)@, kk) by {
                    lemma_member_update_other(old(m)@, i as int, e, kk);
                }
            }
            return;
        }
        i = i + 1;
    }
    let e = (String::from_str(key), value);
    let ghost ge = e;
    m.push(e);
    proof {
        let n = old(m)@.len() as int;
        assert forall|j: int| 0 <= j < n implies #[trigger] m@[j].0@ != key@ by {
            assert(m@[j] == old(m)@[j]);
        }
        lemma_member_at(m@, key@, n);
        assert forall|kk: Seq<char>| kk != key@ implies member(m@, kk) == member(old(m)@, kk) by {
            lemma_member_push_other(old(m)@, ge, kk);
        }
    }
}

proof fn lemma_member_at(m: Seq<(String, JsonValue)>, key: Seq<char>, i: int)
    requires
        0 <= i < m.len(),
        m[i].0@ == key,
        forall|j: int| 0 <= j < i ==> #[trigger] m[j].0@ != key,
    ensures
        member(m, key) == Some(m[i].1),
    decreases i,
{
    if i > 0 {
        assert forall|j: int| 0 <= j < i - 1 implies #[trigger] m.drop_first()[j].0@ != key by {
            assert(m.drop_first()[j] == m[j + 1]);
        }
        lemma_member_at(m.drop_first(), key, i - 1);
    }
}

proof fn lemma_member_update_other(m: Seq<(String, JsonValue)>, i: int, e: (String, JsonValue), k: Seq<char>)
    requires
        0 <= i < m.len(),
        m[i].0@ == e.0@,
        e.0@ != k,
    ensures
        member(m.update(i, e), k) == member(m, k),
    decreases m.len(),
{
    if i > 0 {
        assert(m.update(i, e).drop_first() =~= m.drop_first().update(i - 1, e));
        lemma_member_update_other(m.drop_first(), i - 1, e, k);
    } else {
        assert(m.update(i, e).drop_first() =~= m.drop_first());
    }
}

proof fn lemma_member_push_other(m: Seq<(String, JsonValue)>, e: (String, JsonValue), k: Seq<char>)
    requires
        e.0@ != k,
    ensures
        member(m.push(e), k) == member(m, k),
    decreases m.len(),
{
    if m.len() > 0 {
        assert(m.push(e).drop_first() =~= m.drop_first().push(e));
        assert(m.push(e)[0] == m[0]);
        lemma_member_push_other(m.drop_first(), e, k);
    } else {
        assert(m.push(e)[0] == e);
        assert(m.push(e).drop_first() =~= Seq::<(String, JsonValue)>::empty());
        assert(member(Seq::<(String, JsonValue)>::empty(), k) is None);
        assert(m =~= Seq::<(String, JsonValue)>::empty());
    }
}


} // verus!
