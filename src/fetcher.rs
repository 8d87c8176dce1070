//! The paginated fetch engine: builds the parameters of a listing call and
//! takes one page of items, and the token of the next page, out of the
//! response. The call itself is made by the caller. Page tokens are opaque:
//! they are passed along, never read.
use vstd::prelude::*;
use crate::app::ResourceFilter;
use crate::json::{member, set_member, split_dots, split_path, string_at, value_at, JsonValue};
use crate::registry::ResourceDef;
use crate::text::str_eq;

verus! {

/// The parameters of a listing call: the declared defaults, then each
/// filter's values as a list under its parameter, then the page token
/// under `pageToken`. A later setting of a key replaces an earlier one.
pub fn build_request_params(
    def: &ResourceDef,
    filters: &Vec<ResourceFilter>,
    page_token: Option<&str>,
) -> (r: Vec<(String, JsonValue)>)
    ensures
        match page_token {
            Some(t) => match member(r@, "pageToken"@) {
                Some(JsonValue::Str(s)) => s@ == t@,
                _ => false,
            },
            None => true,
        },
        forall|f: int|
            #![trigger filters@[f]]
            0 <= f < filters@.len() && (forall|g: int| f < g < filters@.len() ==> filters@[g].param@ != filters@[f].param@)
                && (page_token is None || filters@[f].param@ != "pageToken"@) ==> match member(
                r@,
                filters@[f].param@,
            ) {
                Some(v) => v is Array && string_list(v) == filters@[f].values@.map_values(|s: String| s@),
                None => false,
            },
        forall|j: int|
            #![trigger def.sdk_method_params@[j]]
            0 <= j < def.sdk_method_params@.len() && (forall|l: int|
                j < l < def.sdk_method_params@.len() ==> def.sdk_method_params@[l].0@ != def.sdk_method_params@[j].0@)
                && (forall|g: int| 0 <= g < filters@.len() ==> filters@[g].param@ != def.sdk_method_params@[j].0@)
                && (page_token is None || def.sdk_method_params@[j].0@ != "pageToken"@) ==> match member(
                r@,
                def.sdk_method_params@[j].0@,
            ) {
                Some(JsonValue::Str(s)) => s@ == def.sdk_method_params@[j].1@,
                _ => false,
            },
{
    let ghost ds = def.sdk_method_params@;
    let mut params: Vec<(String, JsonValue)> = Vec::new();
    let mut i: usize = 0;
    while i < def.sdk_method_params.len()
        invariant
            ds == def.sdk_method_params@,
            i <= ds.len(),
            forall|j: int|
                #![trigger ds[j]]
                0 <= j < i && (forall|l: int| j < l < i ==> ds[l].0@ != ds[j].0@) ==> match member(
                    params@,
                    ds[j].0@,
                ) {
                    Some(JsonValue::Str(s)) => s@ == ds[j].1@,
                    _ => false,
                },
        decreases ds.len() - i,
    {
        let v = def.sdk_method_params[i].1.clone();
        set_member(&mut params, def.sdk_method_params[i].0.as_str(), JsonValue::Str(v));
        proof {
            assert forall|j: int|
                #![trigger ds[j]]
                0 <= j < i + 1 && (forall|l: int| j < l < i + 1 ==> ds[l].0@ != ds[j].0@) implies match member(
                    params@,
                    ds[j].0@,
                ) {
                    Some(JsonValue::Str(s)) => s@ == ds[j].1@,
                    _ => false,
                } by {
                if j < i {
                    assert(ds[i as int].0@ != ds[j].0@);
                    assert(forall|l: int| j < l < i ==> ds[l].0@ != ds[j].0@);
                }
            }
        }
        i = i + 1;
    }
    let ghost after_defaults = params@;
    let mut k: usize = 0;
    while k < filters.len()
        invariant
            ds == def.sdk_method_params@,
            k <= filters@.len(),
            forall|j: int|
                #![trigger ds[j]]
                0 <= j < ds.len() && (forall|l: int| j < l < ds.len() ==> ds[l].0@ != ds[j].0@) && (forall|g: int|
                    0 <= g < k ==> filters@[g].param@ != ds[j].0@) ==> match member(params@, ds[j].0@) {
                    Some(JsonValue::Str(s)) => s@ == ds[j].1@,
                    _ => false,
                },
            forall|f: int|
                #![trigger filters@[f]]
                0 <= f < k && (forall|g: int| f < g < k ==> filters@[g].param@ != filters@[f].param@) ==> match member(
                    params@,
                    filters@[f].param@,
                ) {
                    Some(v) => v is Array && string_list(v) == filters@[f].values@.map_values(|s: String| s@),
                    None => false,
                },
        decreases filters@.len() - k,
    {
        let list = string_array(&filters[k].values);
        set_member(&mut params, filters[k].param.as_str(), list);
        proof {
            assert forall|f: int|
                #![trigger filters@[f]]
                0 <= f < k + 1 && (forall|g: int| f < g < k + 1 ==> filters@[g].param@ != filters@[f].param@) implies match member(
                    params@,
                    filters@[f].param@,
                ) {
                    Some(v) => v is Array && string_list(v) == filters@[f].values@.map_values(|s: String| s@),
                    None => false,
                } by {
                if f < k {
                    assert(filters@[k as int].param@ != filters@[f].param@);
                    assert(forall|g: int| f < g < k ==> filters@[g].param@ != filters@[f].param@);
                }
            }
            assert forall|j: int|
                #![trigger ds[j]]
                0 <= j < ds.len() && (forall|l: int| j < l < ds.len() ==> ds[l].0@ != ds[j].0@) && (forall|g: int|
                    0 <= g < k + 1 ==> filters@[g].param@ != ds[j].0@) implies match member(params@, ds[j].0@) {
                    Some(JsonValue::Str(s)) => s@ == ds[j].1@,
                    _ => false,
                } by {
                assert(filters@[k as int].param@ != ds[j].0@);
                assert(forall|g: int| 0 <= g < k ==> filters@[g].param@ != ds[j].0@);
            }
        }
        k = k + 1;
    }
    match page_token {
        Some(t) => {
            set_member(&mut params, "pageToken", JsonValue::Str(String::from_str(t)));
        },
        None => {},
    }
    params
}

/// The strings of a list of string values; anything else counts as empty.
pub open spec fn string_list(v: JsonValue) -> Seq<Seq<char>> {
    match v {
        JsonValue::Array(items) => items@.map_values(|x: JsonValue| match x {
            JsonValue::Str(s) => s@,
            _ => Seq::empty(),
        }),
        _ => Seq::empty(),
    }
}

fn string_array(values: &Vec<String>) -> (r: JsonValue)
    ensures
        r is Array,
        string_list(r) == values@.map_values(|s: String| s@),
{
    let mut out: Vec<JsonValue> = Vec::new();
    let mut i: usize = 0;
    while i < values.len()
        invariant
            i <= values@.len(),
            out@.len() == i,
            forall|j: int| 0 <= j < i ==> #[trigger] out@[j] == JsonValue::Str(values@[j]),
        decreases values@.len() - i,
    {
        out.push(JsonValue::Str(values[i].clone()));
        i = i + 1;
    }
    let r = JsonValue::Array(out);
    proof {
        assert(string_list(r) =~= values@.map_values(|s: String| s@));
    }
    r
}

/// The value reached from `v` by object keys only.
pub open spec fn members_at(v: JsonValue, parts: Seq<Seq<char>>) -> Option<JsonValue>
    decreases parts.len(),
{
    if parts.len() == 0 {
        Some(v)
    } else {
        match v {
            JsonValue::Object(members) => match crate::json::member(members@, parts[0]) {
                Some(c) => members_at(c, parts.drop_first()),
                None => None,
            },
            _ => None,
        }
    }
}

/// The items of a response: the response itself for an empty path, else
/// the list found by following the path's keys; anything missing or not a
/// list gives no items.
pub open spec fn items_of(response: JsonValue, path: Seq<char>) -> Seq<JsonValue> {
    let target = if path.len() == 0 {
        Some(response)
    } else {
        members_at(response, split_dots(path))
    };
    match target {
        Some(JsonValue::Array(items)) => items@,
        _ => Seq::empty(),
    }
}

fn take_member(members: Vec<(String, JsonValue)>, key: &str) -> (r: Option<JsonValue>)
    ensures
        r == crate::json::member(members@, key@),
{
    let ghost all = members@;
    let mut rest = members;
    proof {
        assert(rest@ =~= all.subrange(0, all.len() as int));
    }
    while rest.len() > 0
        invariant
            all == members@,
            crate::json::member(all, key@) == crate::json::member(rest@, key@),
        decreases rest@.len(),
    {
        let ghost before = rest@;
        let (k, v) = rest.remove(0);
        proof {
            assert(before[0] == (k, v));
            assert(rest@ =~= before.drop_first());
        }
        if str_eq(k.as_str(), key) {
            proof {
                assert(crate::json::member(before, key@) == Some(v));
            }
            return Some(v);
        }
    }
    None
}

/// Takes the item list out of a response, following `path`.
pub fn extract_items(response: JsonValue, path: &str) -> (r: Vec<JsonValue>)
    ensures
        r@ == items_of(response, path@),
{
    let ghost orig = response;
    if path.unicode_len() == 0 {
        return match response {
            JsonValue::Array(items) => items,
            _ => Vec::new(),
        };
    }
    let parts = split_path(path);
    let ghost ps = parts@.map_values(|p: String| p@);
    let mut cur = response;
    let mut i: usize = 0;
    proof {
        assert(ps.subrange(0, ps.len() as int) =~= ps);
    }
    while i < parts.len()
        invariant
            ps == parts@.map_values(|p: String| p@),
            ps == split_dots(path@),
            path@.len() > 0,
            orig == response,
            i <= parts@.len(),
            members_at(orig, ps) == members_at(cur, ps.subrange(i as int, ps.len() as int)),
        decreases parts@.len() - i,
    {
        proof {
            let rest = ps.subrange(i as int, ps.len() as int);
            assert(rest[0] == parts@[i as int]@);
            assert(rest.drop_first() =~= ps.subrange(i as int + 1, ps.len() as int));
        }
        let ghost gcur = cur;
        let next = match cur {
            JsonValue::Object(members) => take_member(members, parts[i].as_str()),
            _ => None,
        };
        proof {
            let rest = ps.subrange(i as int, ps.len() as int);
            if next is None {
                assert(members_at(gcur, rest) is None);
            } else {
                assert(members_at(gcur, rest) == members_at(next->0, rest.drop_first()));
            }
        }
        match next {
            Some(v) => {
                cur = v;
            },
            None => {
                proof {
                    assert(members_at(orig, ps) is None);
                    assert(items_of(orig, path@) =~= Seq::<JsonValue>::empty());
                }
                return Vec::new();
            },
        }
        i = i + 1;
    }
    proof {
        assert(ps.subrange(i as int, ps.len() as int) =~= Seq::<Seq<char>>::empty());
    }
    match cur {
        JsonValue::Array(items) => items,
        _ => Vec::new(),
    }
}

/// The token of the next page a response offers, if any.
pub fn next_page_token(response: &JsonValue) -> (r: Option<String>)
    ensures
        match value_at(*response, split_dots("nextPageToken"@)) {
            Some(JsonValue::Str(s)) => r is Some && r->0@ == s@,
            _ => r is None,
        },
{
    string_at(response, "nextPageToken")
}

/// One page of a listing: its items and the token of the next page.
pub struct Page {
    pub items: Vec<JsonValue>,
    pub next_token: Option<String>,
}

/// Splits a listing response into its page.
pub fn page_from_response(def: &ResourceDef, response: JsonValue) -> (r: Page)
    ensures
        r.items@ == items_of(response, def.response_path@),
        match value_at(response, split_dots("nextPageToken"@)) {
            Some(JsonValue::Str(s)) => r.next_token is Some && r.next_token->0@ == s@,
            _ => r.next_token is None,
        },
{
    let next_token = next_page_token(&response);
    let items = extract_items(response, def.response_path.as_str());
    Page { items, next_token }
}

/// Adds one page to a listing collected page by page, and returns the token
/// to fetch next; `None` once no further page is offered.
pub fn accumulate_page(all: &mut Vec<JsonValue>, page: Page) -> (next: Option<String>)
    ensures
        final(all)@ == old(all)@ + page.items@,
        next == page.next_token,
{
    let mut items = page.items;
    all.append(&mut items);
    page.next_token
}

/// The items of the pages of a wave that arrived, in wave order.
pub open spec fn wave_items(results: Seq<Result<Page, String>>) -> Seq<JsonValue>
    decreases results.len(),
{
    if results.len() == 0 {
        Seq::empty()
    } else {
        wave_items(results.drop_last()) + match results.last() {
            Ok(p) => p.items@,
            Err(_) => Seq::empty(),
        }
    }
}

/// The next-page tokens that the arrived pages of a wave offer, in wave
/// order: the tokens of the next wave.
pub open spec fn wave_tokens(results: Seq<Result<Page, String>>) -> Seq<Seq<char>>
    decreases results.len(),
{
    if results.len() == 0 {
        Seq::empty()
    } else {
        let t = wave_tokens(results.drop_last());
        match results.last() {
            Ok(p) => match p.next_token {
                Some(s) => t.push(s@),
                None => t,
            },
            Err(_) => t,
        }
    }
}

/// Takes in one wave of a bounded fan-out listing: the pages that arrived
/// add their items in wave order, a failed page is dropped, and the tokens
/// the pages offer make up the next wave (none: the listing is complete).
pub fn apply_wave(all: &mut Vec<JsonValue>, results: Vec<Result<Page, String>>) -> (next: Vec<String>)
    ensures
        final(all)@ == old(all)@ + wave_items(results@),
        next@.map_values(|s: String| s@) == wave_tokens(results@),
{
    let ghost rs = results@;
    let mut rest = results;
    let mut next: Vec<String> = Vec::new();
    let mut i: usize = 0;
    let n = rest.len();
    proof {
        assert(rest@ =~= rs.subrange(0, rs.len() as int));
        assert(rs.subrange(0, 0) =~= Seq::<Result<Page, String>>::empty());
        assert(all@ =~= old(all)@ + wave_items(rs.subrange(0, 0)));
        assert(next@.map_values(|s: String| s@) =~= wave_tokens(rs.subrange(0, 0)));
    }
    while i < n
        invariant
            n == rs.len(),
            i <= n,
            rest@ == rs.subrange(i as int, n as int),
            all@ == old(all)@ + wave_items(rs.subrange(0, i as int)),
            next@.map_values(|s: String| s@) == wave_tokens(rs.subrange(0, i as int)),
        decreases n - i,
    {
        let r = rest.remove(0);
        proof {
            assert(r == rs[i as int]);
            assert(rest@ =~= rs.subrange(i as int + 1, n as int));
            assert(rs.subrange(0, i as int + 1).drop_last() =~= rs.subrange(0, i as int));
            assert(rs.subrange(0, i as int + 1).last() == r);
        }
        let ghost before_all = all@;
        let ghost before_next = next@.map_values(|s: String| s@);
        match r {
            Ok(page) => {
                let mut items = page.items;
                all.append(&mut items);
                match page.next_token {
                    Some(t) => {
                        next.push(t);
                        proof {
                            assert(next@.map_values(|s: String| s@) =~= before_next.push(t@));
                        }
                    },
                    None => {},
                }
                proof {
                    assert(all@ =~= old(all)@ + wave_items(rs.subrange(0, i as int + 1)));
                }
            },
            Err(_) => {
                proof {
                    assert(all@ =~= old(all)@ + wave_items(rs.subrange(0, i as int + 1)));
                }
            },
        }
        i = i + 1;
    }
    proof {
        assert(rs.subrange(0, n as int) =~= rs);
    }
    next
}

/// The resources of one group of an aggregated listing: every list member
/// but `warning`, in member order.
pub open spec fn group_items(members: Seq<(String, JsonValue)>) -> Seq<JsonValue>
    decreases members.len(),
{
    if members.len() == 0 {
        Seq::empty()
    } else {
        group_items(members.drop_last()) + match members.last().1 {
            JsonValue::Array(a) => if members.last().0@ == "warning"@ {
                Seq::empty()
            } else {
                a@
            },
            _ => Seq::empty(),
        }
    }
}

/// The resources of all groups of an aggregated listing, group by group.
pub open spec fn aggregated_items(groups: Seq<(String, JsonValue)>) -> Seq<JsonValue>
    decreases groups.len(),
{
    if groups.len() == 0 {
        Seq::empty()
    } else {
        aggregated_items(groups.drop_last()) + match groups.last().1 {
            JsonValue::Object(ms) => group_items(ms@),
            _ => Seq::empty(),
        }
    }
}

fn take_group_items(members: Vec<(String, JsonValue)>) -> (r: Vec<JsonValue>)
    ensures
        r@ == group_items(members@),
{
    let ghost all = members@;
    let mut rest = members;
    let mut out: Vec<JsonValue> = Vec::new();
    let n = rest.len();
    let mut i: usize = 0;
    proof {
        assert(rest@ =~= all.subrange(0, n as int));
        assert(all.subrange(0, 0) =~= Seq::<(String, JsonValue)>::empty());
    }
    while i < n
        invariant
            n == all.len(),
            i <= n,
            rest@ == all.subrange(i as int, n as int),
            out@ == group_items(all.subrange(0, i as int)),
        decreases n - i,
    {
        let (k, v) = rest.remove(0);
        proof {
            assert(all[i as int] == (k, v));
            assert(rest@ =~= all.subrange(i as int + 1, n as int));
            assert(all.subrange(0, i as int + 1).drop_last() =~= all.subrange(0, i as int));
            assert(all.subrange(0, i as int + 1).last() == (k, v));
        }
        let ghost before = out@;
        let skip = str_eq(k.as_str(), "warning");
        match v {
            JsonValue::Array(a) => {
                if !skip {
                    let mut a = a;
                    out.append(&mut a);
                }
            },
            _ => {},
        }
        proof {
            assert(out@ =~= group_items(all.subrange(0, i as int + 1)));
        }
        i = i + 1;
    }
    proof {
        assert(all.subrange(0, n as int) =~= all);
    }
    out
}

/// Turns an aggregated listing (`items` maps each location to its lists)
/// into a plain one: `{"items": [...]}` with every resource of every
/// location, and no items when the response has no `items` object.
pub fn flatten_aggregated_response(response: JsonValue) -> (r: JsonValue)
    ensures
        r is Object,
        match r {
            JsonValue::Object(ms) => ms@.len() == 1 && ms@[0].0@ == "items"@ && match ms@[0].1 {
                JsonValue::Array(items) => items@ == match response {
                    JsonValue::Object(top) => match crate::json::member(top@, "items"@) {
                        Some(JsonValue::Object(groups)) => aggregated_items(groups@),
                        _ => Seq::empty(),
                    },
                    _ => Seq::empty(),
                },
                _ => false,
            },
            _ => false,
        },
{
    let groups = match response {
        JsonValue::Object(top) => match take_member(top, "items") {
            Some(JsonValue::Object(g)) => g,
            _ => Vec::new(),
        },
        _ => Vec::new(),
    };
    let ghost all = groups@;
    let mut rest = groups;
    let mut out: Vec<JsonValue> = Vec::new();
    let n = rest.len();
    let mut i: usize = 0;
    proof {
        assert(rest@ =~= all.subrange(0, n as int));
        assert(all.subrange(0, 0) =~= Seq::<(String, JsonValue)>::empty());
    }
    while i < n
        invariant
            n == all.len(),
            i <= n,
            rest@ == all.subrange(i as int, n as int),
            out@ == aggregated_items(all.subrange(0, i as int)),
        decreases n - i,
    {
        let (k, v) = rest.remove(0);
        proof {
            assert(all[i as int] == (k, v));
            assert(rest@ =~= all.subrange(i as int + 1, n as int));
            assert(all.subrange(0, i as int + 1).drop_last() =~= all.subrange(0, i as int));
            assert(all.subrange(0, i as int + 1).last() == (k, v));
        }
        match v {
            JsonValue::Object(ms) => {
                let mut items = take_group_items(ms);
                out.append(&mut items);
            },
            _ => {},
        }
        proof {
            assert(out@ =~= aggregated_items(all.subrange(0, i as int + 1)));
        }
        i = i + 1;
    }
    proof {
        assert(all.subrange(0, n as int) =~= all);
    }
    let mut top: Vec<(String, JsonValue)> = Vec::new();
    top.push((String::from_str("items"), JsonValue::Array(out)));
    JsonValue::Object(top)
}

} // verus!
