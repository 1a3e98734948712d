//! Knowledge-graph assembly that does not touch the store: which neighbour
//! entities an opened set of entities pulls in.
use vstd::prelude::*;

use crate::models::Relation;
use crate::sql::strings_view;
use crate::text::str_eq;

verus! {

/// Whether one of the strings of `v` equals `s`.
pub fn contains_string(v: &Vec<String>, s: &str) -> (r: bool)
    ensures
        r == strings_view(v@).contains(s@),
{
    let mut i: usize = 0;
    while i < v.len()
        invariant
            i <= v@.len(),
            forall|k: int| 0 <= k < i ==> v@[k]@ != s@,
        decreases v.len() - i,
    {
        if str_eq(v[i].as_str(), s) {
            assert(strings_view(v@)[i as int] == s@);
            return true;
        }
        i = i + 1;
    }
    assert forall|k: int| 0 <= k < strings_view(v@).len() implies strings_view(v@)[k] != s@ by {
        assert(strings_view(v@)[k] == v@[k]@);
    }
    false
}

/// `v` with `x` appended unless `x` is in `v` or in `except`.
pub open spec fn push_new(v: Seq<Seq<char>>, except: Seq<Seq<char>>, x: Seq<char>) -> Seq<Seq<char>> {
    if !except.contains(x) && !v.contains(x) {
        v.push(x)
    } else {
        v
    }
}

/// The endpoints of the relations, source then target, in relation order.
pub open spec fn endpoints(rels: Seq<Relation>) -> Seq<(Seq<char>, Seq<char>)> {
    rels.map_values(|r: Relation| (r.from_entity_id@, r.to_entity_id@))
}

/// The entity ids that the relations reach and that are not among `ids`,
/// each once, in the order in which the relations first name them.
pub open spec fn neighbors(ids: Seq<Seq<char>>, ends: Seq<(Seq<char>, Seq<char>)>) -> Seq<Seq<char>>
    decreases ends.len(),
{
    if ends.len() == 0 {
        Seq::empty()
    } else {
        let prev = neighbors(ids, ends.drop_last());
        push_new(push_new(prev, ids, ends.last().0), ids, ends.last().1)
    }
}

/// The neighbours of a set of opened entities: no id twice, none of the opened
/// ids, every endpoint of every relation is opened or a neighbour, and every
/// neighbour is an endpoint of some relation.
pub proof fn lemma_neighbors(ids: Seq<Seq<char>>, ends: Seq<(Seq<char>, Seq<char>)>)
    ensures
        neighbors(ids, ends).no_duplicates(),
        forall|x: Seq<char>| neighbors(ids, ends).contains(x) ==> !ids.contains(x),
        forall|i: int| 0 <= i < ends.len() ==> (ids.contains(#[trigger] ends[i].0) || neighbors(ids, ends).contains(ends[i].0))
            && (ids.contains(ends[i].1) || neighbors(ids, ends).contains(ends[i].1)),
        forall|x: Seq<char>| neighbors(ids, ends).contains(x) ==> exists|i: int| 0 <= i < ends.len()
            && (#[trigger] ends[i].0 == x || ends[i].1 == x),
    decreases ends.len(),
{
    if ends.len() > 0 {
        let prev = neighbors(ids, ends.drop_last());
        lemma_neighbors(ids, ends.drop_last());
        let (f, t) = ends.last();
        let p1 = push_new(prev, ids, f);
        let p2 = push_new(p1, ids, t);
        assert(p1.no_duplicates()) by {
            if !ids.contains(f) && !prev.contains(f) {
                assert forall|a: int, b: int| 0 <= a < p1.len() && 0 <= b < p1.len() && a != b implies p1[a] != p1[b] by {
                    if a == prev.len() as int {
                        assert(p1[b] == prev[b]);
                        if prev[b] == f {
                            assert(prev.contains(f));
                        }
                    } else if b == prev.len() as int {
                        assert(p1[a] == prev[a]);
                    }
                }
            }
        }
        assert(p2.no_duplicates()) by {
            if !ids.contains(t) && !p1.contains(t) {
                assert forall|a: int, b: int| 0 <= a < p2.len() && 0 <= b < p2.len() && a != b implies p2[a] != p2[b] by {
                    if a == p1.len() as int {
                        if b < p1.len() { assert(p1[b] == p2[b]); assert(p1.contains(p2[b])); }
                    } else if b == p1.len() as int {
                        assert(p2[a] == p1[a]);
                        assert(p1.contains(p2[a]));
                    }
                }
            }
        }
        assert forall|x: Seq<char>| p2.contains(x) implies !ids.contains(x) by {
            let k = choose|k: int| 0 <= k < p2.len() && p2[k] == x;
            if k < p1.len() {
                assert(p1[k] == x);
                assert(p1.contains(x));
                if k < prev.len() {
                    assert(prev[k] == x);
                    assert(prev.contains(x));
                }
            }
        }
        assert forall|y: Seq<char>| prev.contains(y) implies p2.contains(y) by {
            let k = choose|k: int| 0 <= k < prev.len() && prev[k] == y;
            assert(p1[k] == y);
            assert(p2[k] == y);
        }
        assert(ids.contains(f) || p2.contains(f)) by {
            if !ids.contains(f) {
                if prev.contains(f) {
                } else {
                    assert(p1[prev.len() as int] == f);
                    assert(p2[prev.len() as int] == f);
                }
            }
        }
        assert(ids.contains(t) || p2.contains(t)) by {
            if !ids.contains(t) && !p1.contains(t) {
                assert(p2[p1.len() as int] == t);
            } else if !ids.contains(t) {
                let k = choose|k: int| 0 <= k < p1.len() && p1[k] == t;
                assert(p2[k] == t);
            }
        }
        let e0 = ends.drop_last();
        assert forall|i: int| 0 <= i < ends.len() implies (ids.contains(#[trigger] ends[i].0) || p2.contains(ends[i].0))
            && (ids.contains(ends[i].1) || p2.contains(ends[i].1)) by {
            if i < ends.len() - 1 {
                assert(e0[i] == ends[i]);
            }
        }
        assert forall|x: Seq<char>| p2.contains(x) implies exists|i: int| 0 <= i < ends.len()
            && (#[trigger] ends[i].0 == x || ends[i].1 == x) by {
            let last = ends.len() - 1;
            if x == f || x == t {
                assert(ends[last].0 == x || ends[last].1 == x);
            } else {
                let k = choose|k: int| 0 <= k < p2.len() && p2[k] == x;
                if k < prev.len() {
                    assert(prev[k] == x);
                } else if k < p1.len() {
                    assert(p1[k] == f);
                } else {
                    assert(p2[k] == t);
                }
                assert(prev.contains(x));
                assert(exists|i: int| 0 <= i < e0.len() && (#[trigger] e0[i].0 == x || e0[i].1 == x));
                let i = choose|i: int| 0 <= i < e0.len() && (#[trigger] e0[i].0 == x || e0[i].1 == x);
                assert(ends[i] == e0[i]);
                assert(ends[i].0 == x || ends[i].1 == x);
            }
        }
    }
}

/// The ids of the entities that `relations` connect to the opened entities
/// `ids` and that are not opened themselves, each once, in first-mention order.
pub fn neighbor_ids(ids: &Vec<String>, relations: &Vec<Relation>) -> (r: Vec<String>)
    ensures
        strings_view(r@) == neighbors(strings_view(ids@), endpoints(relations@)),
{
    let mut out: Vec<String> = Vec::new();
    let mut i: usize = 0;
    while i < relations.len()
        invariant
            i <= relations@.len(),
            strings_view(out@) == neighbors(strings_view(ids@), endpoints(relations@.take(i as int))),
        decreases relations.len() - i,
    {
        let ghost prev = strings_view(out@);
        let rel = &relations[i];
        let f = &rel.from_entity_id;
        let t = &rel.to_entity_id;
        if !contains_string(ids, f.as_str()) && !contains_string(&out, f.as_str()) {
            out.push(f.clone());
        }
        let ghost mid = strings_view(out@);
        assert(mid =~= push_new(prev, strings_view(ids@), f@));
        if !contains_string(ids, t.as_str()) && !contains_string(&out, t.as_str()) {
            out.push(t.clone());
        }
        assert(strings_view(out@) =~= push_new(mid, strings_view(ids@), t@));
        proof {
            let e = endpoints(relations@.take(i + 1));
            assert(e.drop_last() =~= endpoints(relations@.take(i as int)));
            assert(e.last() == (f@, t@));
        }
        i = i + 1;
    }
    assert(relations@.take(relations@.len() as int) =~= relations@);
    out
}

} // verus!
