//! Steop's storage on the server: blobs by scope and key, per-session state
//! (a JSON object that writes replace or merge into) and named counters.
use vstd::prelude::*;

use crate::json::{
    jv, jv_members, key_pos, keys_unique, lemma_jv_members, lemma_key_pos, lemma_key_pos_at,
    lemma_key_pos_none, members_insert, mget, mset, Json, JsonV,
};

verus! {

/// A stored blob.
pub struct SteopBlob {
    pub scope: String,
    pub key: String,
    pub content: String,
    pub created_at: String,
    pub updated_at: String,
}

/// What a blob write answers: where it went and when.
pub struct SteopBlobMeta {
    pub scope: String,
    pub key: String,
    pub updated_at: String,
}

/// A blob in a listing: its key, last update and size in bytes.
pub struct SteopBlobListItem {
    pub key: String,
    pub updated_at: String,
    pub size: i64,
}

/// A session's state: its data, its counters by name (ordered by name), and times.
pub struct SteopState {
    pub session_id: String,
    pub data: Json,
    pub counters: Vec<(String, i64)>,
    pub created_at: String,
    pub updated_at: String,
}

/// The answer to a blob write.
pub fn blob_meta(scope: &str, key: &str, now: String) -> (r: SteopBlobMeta)
    ensures
        r.scope@ == scope@,
        r.key@ == key@,
        r.updated_at@ == now@,
{
    SteopBlobMeta { scope: String::from_str(scope), key: String::from_str(key), updated_at: now }
}

// ── Merging state ──

/// The members of `a` with those of `b` set into it, in order.
pub open spec fn merge_members(a: Seq<(Seq<char>, JsonV)>, b: Seq<(Seq<char>, JsonV)>) -> Seq<(Seq<char>, JsonV)>
    decreases b.len(),
{
    if b.len() == 0 {
        a
    } else {
        mset(merge_members(a, b.drop_last()), b.last().0, b.last().1)
    }
}

/// The data a state write leaves: without `merge`, the written data; with
/// it, the written object's members set into the stored object (`{}` when
/// there is none or it could not be read), unless one of the two is not an
/// object, in which case the written data.
pub open spec fn merged_state(existing: Option<JsonV>, data: JsonV, merge: bool) -> JsonV {
    if !merge {
        data
    } else {
        let ev = match existing {
            Some(v) => v,
            None => JsonV::Object(Seq::empty()),
        };
        match (ev, data) {
            (JsonV::Object(a), JsonV::Object(b)) => JsonV::Object(merge_members(a, b)),
            _ => data,
        }
    }
}

/// The data to store for a state write; `existing` is what is stored, when
/// it could be read as JSON.
pub fn merge_state_data(existing: Option<Json>, data: Json, merge: bool) -> (r: Json)
    ensures
        r@ == merged_state(
            match existing {
                Some(v) => Some(v@),
                None => None,
            },
            data@,
            merge,
        ),
{
    if !merge {
        return data;
    }
    let ev = match existing {
        Some(v) => v,
        None => {
            let e = Json::Object(Vec::new());
            assert(jv_members(Seq::<(String, Json)>::empty()) =~= Seq::empty());
            e
        },
    };
    match (ev, data) {
        (Json::Object(mut a), Json::Object(b)) => {
            let ghost a0 = jv_members(a@);
            let ghost bv = jv_members(b@);
            proof {
                lemma_jv_members(b@);
            }
            let mut i: usize = 0;
            let mut rest = b;
            let ghost b0 = rest@;
            let n: usize = rest.len();
            while i < n
                invariant
                    n == b0.len(),
                    i <= n,
                    bv == jv_members(b0),
                    bv.len() == b0.len(),
                    forall|k: int| 0 <= k < b0.len() ==> #[trigger] bv[k] == (b0[k].0@, jv(b0[k].1)),
                    rest@ == b0.skip(i as int),
                    jv_members(a@) == merge_members(a0, bv.take(i as int)),
                decreases n - i,
            {
                let ghost before = rest@;
                let (k, v) = rest.remove(0);
                assert((k, v) == b0[i as int]);
                members_insert(&mut a, k, v);
                proof {
                    assert(bv.take(i + 1).drop_last() =~= bv.take(i as int));
                    assert(bv.take(i + 1).last() == bv[i as int]);
                    assert(rest@ =~= b0.skip(i + 1));
                }
                i = i + 1;
            }
            assert(bv.take(n as int) =~= bv);
            Json::Object(a)
        },
        (_, other) => other,
    }
}

// ── Member lookup after changes ──

/// Looking up a key after appending a member: the old member when there was
/// one, else the appended one when its key matches.
pub proof fn lemma_mget_push(m: Seq<(Seq<char>, JsonV)>, x: (Seq<char>, JsonV), k: Seq<char>)
    ensures
        mget(m.push(x), k) == (match mget(m, k) {
            Some(v) => Some(v),
            None => if x.0 == k { Some(x.1) } else { None },
        }),
{
    let n = m.push(x);
    lemma_key_pos(m, k);
    match key_pos(m, k) {
        Some(p) => {
            assert forall|j: int| 0 <= j < p implies n[j].0 != k by {
                assert(n[j] == m[j]);
            }
            assert(n[p as int] == m[p as int]);
            lemma_key_pos_at(n, k, p as int);
        },
        None => {
            if x.0 == k {
                assert forall|j: int| 0 <= j < m.len() implies n[j].0 != k by {
                    assert(n[j] == m[j]);
                }
                lemma_key_pos_at(n, k, m.len() as int);
            } else {
                assert forall|j: int| 0 <= j < n.len() implies n[j].0 != k by {
                    if j < m.len() {
                        assert(n[j] == m[j]);
                    }
                }
                lemma_key_pos_none(n, k);
            }
        },
    }
}

/// Looking up a key after setting one: the set value for that key, the old
/// lookup for any other.
pub proof fn lemma_mget_mset(m: Seq<(Seq<char>, JsonV)>, k0: Seq<char>, v0: JsonV, k: Seq<char>)
    ensures
        mget(mset(m, k0, v0), k) == (if k == k0 { Some(v0) } else { mget(m, k) }),
{
    lemma_key_pos(m, k0);
    lemma_key_pos(m, k);
    match key_pos(m, k0) {
        Some(p) => {
            let n = m.update(p as int, (k0, v0));
            assert forall|j: int| 0 <= j < n.len() implies #[trigger] n[j].0 == m[j].0 by {}
            if k == k0 {
                assert forall|j: int| 0 <= j < p implies n[j].0 != k by {}
                lemma_key_pos_at(n, k, p as int);
            } else {
                match key_pos(m, k) {
                    Some(q) => {
                        assert forall|j: int| 0 <= j < q implies n[j].0 != k by {}
                        lemma_key_pos_at(n, k, q as int);
                    },
                    None => {
                        assert forall|j: int| 0 <= j < n.len() implies n[j].0 != k by {}
                        lemma_key_pos_none(n, k);
                    },
                }
            }
        },
        None => {
            lemma_mget_push(m, (k0, v0), k);
        },
    }
}

/// Keys stay unique when the last member is dropped.
proof fn lemma_unique_drop_last(b: Seq<(Seq<char>, JsonV)>)
    requires
        b.len() > 0,
        keys_unique(b),
    ensures
        keys_unique(b.drop_last()),
        mget(b.drop_last(), b.last().0) is None,
{
    let d = b.drop_last();
    assert forall|j: int| 0 <= j < d.len() implies d[j].0 != b.last().0 by {
        assert(d[j] == b[j]);
    }
    lemma_key_pos(d, b.last().0);
}

/// After a merge, a key the written object has reads as written, and any
/// other key reads as before (the written object's keys being unique, as a
/// JSON object's are).
pub proof fn lemma_merge_get(a: Seq<(Seq<char>, JsonV)>, b: Seq<(Seq<char>, JsonV)>, k: Seq<char>)
    requires
        keys_unique(b),
    ensures
        mget(merge_members(a, b), k) == (match mget(b, k) {
            Some(v) => Some(v),
            None => mget(a, k),
        }),
    decreases b.len(),
{
    if b.len() > 0 {
        let d = b.drop_last();
        lemma_unique_drop_last(b);
        lemma_merge_get(a, d, k);
        lemma_mget_mset(merge_members(a, d), b.last().0, b.last().1, k);
        assert(d.push(b.last()) =~= b);
        lemma_mget_push(d, b.last(), k);
    }
}

/// A write without merge stores exactly the written data; a merge into a
/// session that has no state stores the written object's members.
pub proof fn lemma_put_replaces(existing: Option<JsonV>, data: JsonV)
    ensures
        merged_state(existing, data, false) == data,
        data is Object ==> merged_state(None, data, true) == JsonV::Object(merge_members(Seq::empty(), data->Object_0)),
{
}

// ── State after a write ──

/// The state a write answers with: the state read back, or, when it cannot
/// be read back, the written data with no counters and `now` as both times.
pub fn state_after_put(session_id: &str, data: Json, reread: Option<SteopState>, now: String) -> (r: SteopState)
    ensures
        match reread {
            Some(s) => r == s,
            None => r.session_id@ == session_id@ && r.data == data && r.counters@.len() == 0
                && r.created_at@ == now@ && r.updated_at@ == now@,
        },
{
    match reread {
        Some(s) => s,
        None => {
            let created = now.clone();
            SteopState {
                session_id: String::from_str(session_id),
                data,
                counters: Vec::new(),
                created_at: created,
                updated_at: now,
            }
        },
    }
}

} // verus!
