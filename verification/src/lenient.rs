//! Lenient reading of list parameters: clients send lists as JSON arrays, as
//! JSON text inside a string, or (for lists of strings) as a single string.
use vstd::prelude::*;

use crate::json::{jv, jv_seq, kind_name, lemma_jv_seq, value_type_name, Json, JsonV};
use crate::sql::strings_view;
use crate::text::{push_str, string_of};

verus! {

/// `{prefix}{kind of v}`.
fn with_kind(prefix: &str, v: &Json) -> (r: String)
    ensures
        r@ == prefix@ + kind_name(v@),
{
    let mut out = crate::text::chars_of(prefix);
    push_str(&mut out, value_type_name(v));
    string_of(out.as_slice())
}

/// A list of strings read from an array of strings, or a single string as a
/// list of one; anything else is refused, naming what was found.
pub open spec fn string_list_spec(v: JsonV) -> Result<Seq<Seq<char>>, Seq<char>> {
    match v {
        JsonV::Str(s) => Ok(seq![s]),
        JsonV::Array(items) => match first_non_string(items) {
            Some(k) => Err("expected string in array, got "@ + kind_name(items[k])),
            None => Ok(items.map_values(|x: JsonV| x->Str_0)),
        },
        _ => Err("expected string or array of strings, got "@ + kind_name(v)),
    }
}

/// The position of the first item that is not a string.
pub open spec fn first_non_string(items: Seq<JsonV>) -> Option<int> {
    if exists|k: int| 0 <= k < items.len() && !(items[k] is Str) {
        Some(choose|k: int| 0 <= k < items.len() && !(items[k] is Str) && forall|j: int| 0 <= j < k ==> items[j] is Str)
    } else {
        None
    }
}

proof fn lemma_first_non_string(items: Seq<JsonV>, k: int)
    requires
        0 <= k < items.len(),
        !(items[k] is Str),
        forall|j: int| 0 <= j < k ==> items[j] is Str,
    ensures
        first_non_string(items) == Some(k),
{
    let c = choose|c: int| 0 <= c < items.len() && !(items[c] is Str) && forall|j: int| 0 <= j < c ==> items[j] is Str;
    assert(items[k] matches JsonV::Str(_) == false);
    if c < k {
        assert(items[c] is Str);
    } else if c > k {
        assert(items[k] is Str);
    }
}

fn strings_of_items(items: Vec<Json>) -> (r: Result<Vec<String>, String>)
    ensures
        match string_list_spec(JsonV::Array(jv_seq(items@))) {
            Ok(l) => r matches Ok(v) && strings_view(v@) == l,
            Err(e) => r matches Err(m) && m@ == e,
        },
{
    let ghost iv = jv_seq(items@);
    proof {
        lemma_jv_seq(items@);
    }
    let mut out: Vec<String> = Vec::new();
    let mut rest = items;
    let ghost all = rest@;
    let n: usize = rest.len();
    let mut i: usize = 0;
    while i < n
        invariant
            n == all.len(),
            i <= n,
            all == items@,
            iv == jv_seq(all),
            iv.len() == all.len(),
            forall|k: int| 0 <= k < all.len() ==> #[trigger] iv[k] == jv(all[k]),
            rest@ == all.skip(i as int),
            forall|j: int| 0 <= j < i ==> iv[j] is Str,
            strings_view(out@) == iv.take(i as int).map_values(|x: JsonV| x->Str_0),
        decreases n - i,
    {
        let item = rest.remove(0);
        assert(item == all[i as int]);
        assert(rest@ =~= all.skip(i + 1));
        match item {
            Json::Str(s) => {
                let ghost before = out@;
                out.push(s);
                proof {
                    assert(strings_view(out@) =~= strings_view(before).push(s@));
                    assert(iv.take(i + 1).map_values(|x: JsonV| x->Str_0) =~=
                        iv.take(i as int).map_values(|x: JsonV| x->Str_0).push(iv[i as int]->Str_0));
                }
            },
            other => {
                proof {
                    assert(iv[i as int] == jv(all[i as int]));
                    assert(iv[i as int] == other@);
                    assert(!(iv[i as int] is Str));
                    lemma_first_non_string(iv, i as int);
                }
                let e = with_kind("expected string in array, got ", &other);
                assert(string_list_spec(JsonV::Array(iv)) == Err::<Seq<Seq<char>>, Seq<char>>(e@));
                return Err(e);
            },
        }
        i = i + 1;
    }
    proof {
        assert(iv.take(i as int) =~= iv);
        if exists|k: int| 0 <= k < iv.len() && !(iv[k] is Str) {
            let k = choose|k: int| 0 <= k < iv.len() && !(iv[k] is Str);
            assert(iv[k] is Str);
        }
    }
    Ok(out)
}

/// A list of strings from an array of strings or a single string
/// (a bare string is one item; it is not read as JSON).
pub fn string_or_string_vec(v: Json) -> (r: Result<Vec<String>, String>)
    ensures
        match string_list_spec(v@) {
            Ok(l) => r matches Ok(x) && strings_view(x@) == l,
            Err(e) => r matches Err(m) && m@ == e,
        },
{
    match v {
        Json::Str(s) => {
            let ghost sv = s@;
            let mut out: Vec<String> = Vec::new();
            out.push(s);
            assert(strings_view(out@) =~= seq![sv]);
            Ok(out)
        },
        Json::Array(items) => strings_of_items(items),
        other => Err(with_kind("expected string or array of strings, got ", &other)),
    }
}

/// As [`string_list_spec`], with `null` read as no list.
pub open spec fn opt_string_list_spec(v: JsonV) -> Result<Option<Seq<Seq<char>>>, Seq<char>> {
    match v {
        JsonV::Null => Ok(None),
        JsonV::Str(_) | JsonV::Array(_) => match string_list_spec(v) {
            Ok(l) => Ok(Some(l)),
            Err(e) => Err(e),
        },
        _ => Err("expected string, array of strings, or null, got "@ + kind_name(v)),
    }
}

/// A list of strings, or none, from `null` (or a missing value), a single
/// string, or an array of strings.
pub fn string_or_string_vec_opt(v: Json) -> (r: Result<Option<Vec<String>>, String>)
    ensures
        match opt_string_list_spec(v@) {
            Ok(Some(l)) => r matches Ok(Some(x)) && strings_view(x@) == l,
            Ok(None) => r matches Ok(None),
            Err(e) => r matches Err(m) && m@ == e,
        },
{
    match v {
        Json::Null => Ok(None),
        Json::Str(s) => match string_or_string_vec(Json::Str(s)) {
            Ok(l) => Ok(Some(l)),
            Err(e) => Err(e),
        },
        Json::Array(items) => match strings_of_items(items) {
            Ok(l) => Ok(Some(l)),
            Err(e) => Err(e),
        },
        other => Err(with_kind("expected string, array of strings, or null, got ", &other)),
    }
}

/// Where the items of a list parameter come from: the array itself, or the
/// JSON text a string holds.
pub enum ListSource {
    Items(Vec<Json>),
    Encoded(String),
}

pub enum ListSourceV {
    Items(Seq<JsonV>),
    Encoded(Seq<char>),
}

pub open spec fn list_source_view(s: ListSource) -> ListSourceV {
    match s {
        ListSource::Items(v) => ListSourceV::Items(jv_seq(v@)),
        ListSource::Encoded(t) => ListSourceV::Encoded(t@),
    }
}

/// How a list parameter is read: an array's items, the text of a string
/// (read as JSON afterwards), or, for anything else, an error naming it.
pub open spec fn list_source_spec(v: JsonV) -> Result<ListSourceV, Seq<char>> {
    match v {
        JsonV::Array(items) => Ok(ListSourceV::Items(items)),
        JsonV::Str(s) => Ok(ListSourceV::Encoded(s)),
        _ => Err("expected array or string-encoded array, got "@ + kind_name(v)),
    }
}

pub fn string_or_vec(v: Json) -> (r: Result<ListSource, String>)
    ensures
        match list_source_spec(v@) {
            Ok(s) => r matches Ok(x) && list_source_view(x) == s,
            Err(e) => r matches Err(m) && m@ == e,
        },
{
    match v {
        Json::Array(items) => Ok(ListSource::Items(items)),
        Json::Str(s) => Ok(ListSource::Encoded(s)),
        other => Err(with_kind("expected array or string-encoded array, got ", &other)),
    }
}

/// As [`list_source_spec`], with `null` read as no list.
pub open spec fn opt_list_source_spec(v: JsonV) -> Result<Option<ListSourceV>, Seq<char>> {
    match v {
        JsonV::Null => Ok(None),
        JsonV::Array(items) => Ok(Some(ListSourceV::Items(items))),
        JsonV::Str(s) => Ok(Some(ListSourceV::Encoded(s))),
        _ => Err("expected array, string-encoded array, or null, got "@ + kind_name(v)),
    }
}

pub fn string_or_vec_opt(v: Json) -> (r: Result<Option<ListSource>, String>)
    ensures
        match opt_list_source_spec(v@) {
            Ok(Some(s)) => r matches Ok(Some(x)) && list_source_view(x) == s,
            Ok(None) => r matches Ok(None),
            Err(e) => r matches Err(m) && m@ == e,
        },
{
    match v {
        Json::Null => Ok(None),
        Json::Array(items) => Ok(Some(ListSource::Items(items))),
        Json::Str(s) => Ok(Some(ListSource::Encoded(s))),
        other => Err(with_kind("expected array, string-encoded array, or null, got ", &other)),
    }
}

} // verus!
