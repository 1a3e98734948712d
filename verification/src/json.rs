use vstd::prelude::*;

verus! {

/// A JSON value, as the service exchanges it with its clients and peers.
///
/// Numbers are kept as exact integers where they fit (`Int`, `UInt`) and
/// otherwise by their decimal text (`Decimal`). An object holds its members
/// as key/value pairs; a key occurs at most once in well-formed values, and
/// lookups use the first member with the key.
#[derive(Debug)]
pub enum Json {
    Null,
    Bool(bool),
    Int(i64),
    UInt(u64),
    Decimal(String),
    Str(String),
    Array(Vec<Json>),
    Object(Vec<(String, Json)>),
}

/// The mathematical value of a [`Json`].
pub enum JsonV {
    Null,
    Bool(bool),
    Int(i64),
    UInt(u64),
    Decimal(Seq<char>),
    Str(Seq<char>),
    Array(Seq<JsonV>),
    Object(Seq<(Seq<char>, JsonV)>),
}

pub open spec fn jv(j: Json) -> JsonV
    decreases j,
{
    match j {
        Json::Null => JsonV::Null,
        Json::Bool(b) => JsonV::Bool(b),
        Json::Int(i) => JsonV::Int(i),
        Json::UInt(u) => JsonV::UInt(u),
        Json::Decimal(s) => JsonV::Decimal(s@),
        Json::Str(s) => JsonV::Str(s@),
        Json::Array(v) => JsonV::Array(jv_seq(v@)),
        Json::Object(m) => JsonV::Object(jv_members(m@)),
    }
}

pub open spec fn jv_seq(s: Seq<Json>) -> Seq<JsonV>
    decreases s,
{
    if s.len() == 0 {
        Seq::empty()
    } else {
        jv_seq(s.drop_last()).push(jv(s.last()))
    }
}

pub open spec fn jv_members(s: Seq<(String, Json)>) -> Seq<(Seq<char>, JsonV)>
    decreases s,
{
    if s.len() == 0 {
        Seq::empty()
    } else {
        jv_members(s.drop_last()).push((s.last().0@, jv(s.last().1)))
    }
}

impl View for Json {
    type V = JsonV;

    open spec fn view(&self) -> JsonV {
        jv(*self)
    }
}

pub proof fn lemma_jv_seq(s: Seq<Json>)
    ensures
        jv_seq(s).len() == s.len(),
        forall|i: int| 0 <= i < s.len() ==> #[trigger] jv_seq(s)[i] == jv(s[i]),
    decreases s.len(),
{
    if s.len() > 0 {
        lemma_jv_seq(s.drop_last());
    }
}

pub proof fn lemma_jv_members(s: Seq<(String, Json)>)
    ensures
        jv_members(s).len() == s.len(),
        forall|i: int| 0 <= i < s.len() ==> #[trigger] jv_members(s)[i] == (s[i].0@, jv(s[i].1)),
    decreases s.len(),
{
    if s.len() > 0 {
        lemma_jv_members(s.drop_last());
    }
}

pub proof fn lemma_jv_members_push(s: Seq<(String, Json)>, k: String, v: Json)
    ensures
        jv_members(s.push((k, v))) == jv_members(s).push((k@, jv(v))),
{
    assert(s.push((k, v)).drop_last() =~= s);
}

pub proof fn lemma_jv_seq_push(s: Seq<Json>, v: Json)
    ensures
        jv_seq(s.push(v)) == jv_seq(s).push(jv(v)),
{
    assert(s.push(v).drop_last() =~= s);
}

// ── Object members ──

/// The position of the first member whose key is `k`.
pub open spec fn key_pos(m: Seq<(Seq<char>, JsonV)>, k: Seq<char>) -> Option<nat>
    decreases m.len(),
{
    if m.len() == 0 {
        None
    } else if m[0].0 == k {
        Some(0)
    } else {
        match key_pos(m.drop_first(), k) {
            Some(p) => Some(p + 1),
            None => None,
        }
    }
}

pub proof fn lemma_key_pos(m: Seq<(Seq<char>, JsonV)>, k: Seq<char>)
    ensures
        match key_pos(m, k) {
            Some(p) => p < m.len() && m[p as int].0 == k && forall|j: int| 0 <= j < p ==> m[j].0 != k,
            None => forall|j: int| 0 <= j < m.len() ==> m[j].0 != k,
        },
    decreases m.len(),
{
    if m.len() > 0 {
        lemma_key_pos(m.drop_first(), k);
        if m[0].0 != k {
            match key_pos(m.drop_first(), k) {
                Some(p) => {
                    assert forall|j: int| 0 <= j < p + 1 implies m[j].0 != k by {
                        if j > 0 {
                            assert(m[j] == m.drop_first()[j - 1]);
                        }
                    }
                },
                None => {
                    assert forall|j: int| 0 <= j < m.len() implies m[j].0 != k by {
                        if j > 0 {
                            assert(m[j] == m.drop_first()[j - 1]);
                        }
                    }
                },
            }
        }
    }
}

/// The converse of [`lemma_key_pos`]: a position with the key and none before it is the key's position.
pub proof fn lemma_key_pos_at(m: Seq<(Seq<char>, JsonV)>, k: Seq<char>, p: int)
    requires
        0 <= p < m.len(),
        m[p].0 == k,
        forall|j: int| 0 <= j < p ==> m[j].0 != k,
    ensures
        key_pos(m, k) == Some(p as nat),
    decreases p,
{
    if p > 0 {
        assert forall|j: int| 0 <= j < p - 1 implies m.drop_first()[j].0 != k by {
            assert(m.drop_first()[j] == m[j + 1]);
        }
        lemma_key_pos_at(m.drop_first(), k, p - 1);
    }
}

pub proof fn lemma_key_pos_none(m: Seq<(Seq<char>, JsonV)>, k: Seq<char>)
    requires
        forall|j: int| 0 <= j < m.len() ==> m[j].0 != k,
    ensures
        key_pos(m, k) is None,
    decreases m.len(),
{
    if m.len() > 0 {
        assert forall|j: int| 0 <= j < m.len() - 1 implies m.drop_first()[j].0 != k by {
            assert(m.drop_first()[j] == m[j + 1]);
        }
        lemma_key_pos_none(m.drop_first(), k);
    }
}

/// The value of member `k` of the members `m`.
pub open spec fn mget(m: Seq<(Seq<char>, JsonV)>, k: Seq<char>) -> Option<JsonV> {
    match key_pos(m, k) {
        Some(p) => Some(m[p as int].1),
        None => None,
    }
}

/// The value of member `k` of `j`, when `j` is an object that has it.
pub open spec fn jget(j: JsonV, k: Seq<char>) -> Option<JsonV> {
    match j {
        JsonV::Object(m) => mget(m, k),
        _ => None,
    }
}

/// `m` with member `k` set to `v`: replaced in place when present, appended otherwise
/// (as `serde_json::Map::insert` does, up to the order in which members are kept).
pub open spec fn mset(m: Seq<(Seq<char>, JsonV)>, k: Seq<char>, v: JsonV) -> Seq<(Seq<char>, JsonV)> {
    match key_pos(m, k) {
        Some(p) => m.update(p as int, (k, v)),
        None => m.push((k, v)),
    }
}

/// `m` without its member `k` (the first one, which is the only one in well-formed objects).
pub open spec fn mremove(m: Seq<(Seq<char>, JsonV)>, k: Seq<char>) -> Seq<(Seq<char>, JsonV)> {
    match key_pos(m, k) {
        Some(p) => m.remove(p as int),
        None => m,
    }
}

/// Keys occur at most once.
pub open spec fn keys_unique(m: Seq<(Seq<char>, JsonV)>) -> bool {
    forall|i: int, j: int| 0 <= i < m.len() && 0 <= j < m.len() && i != j ==> m[i].0 != m[j].0
}

/// The position of the first member of `m` with key `k`.
pub fn member_pos(m: &Vec<(String, Json)>, k: &str) -> (r: Option<usize>)
    ensures
        match r {
            Some(p) => p < m@.len() && m@[p as int].0@ == k@ && key_pos(jv_members(m@), k@) == Some(p as nat),
            None => key_pos(jv_members(m@), k@) is None,
        },
{
    proof {
        lemma_jv_members(m@);
    }
    let mut i: usize = 0;
    while i < m.len()
        invariant
            i <= m@.len(),
            jv_members(m@).len() == m@.len(),
            forall|j: int| 0 <= j < m@.len() ==> #[trigger] jv_members(m@)[j] == (m@[j].0@, jv(m@[j].1)),
            forall|j: int| 0 <= j < i ==> (#[trigger] jv_members(m@)[j]).0 != k@,
        decreases m.len() - i,
    {
        if crate::text::str_eq(m[i].0.as_str(), k) {
            proof {
                lemma_key_pos_at(jv_members(m@), k@, i as int);
            }
            return Some(i);
        }
        i = i + 1;
    }
    proof {
        lemma_key_pos_none(jv_members(m@), k@);
    }
    None
}

/// Sets member `k` of the members `m` to `v` (`serde_json::Map::insert`).
pub fn members_insert(m: &mut Vec<(String, Json)>, k: String, v: Json)
    ensures
        jv_members(final(m)@) == mset(jv_members(old(m)@), k@, jv(v)),
{
    proof {
        lemma_jv_members(m@);
    }
    match member_pos(m, k.as_str()) {
        Some(p) => {
            let ghost before = m@;
            m.set(p, (k, v));
            proof {
                lemma_jv_members(m@);
                assert(jv_members(m@) =~= jv_members(before).update(p as int, (k@, jv(v))));
            }
        },
        None => {
            let ghost before = m@;
            m.push((k, v));
            proof {
                lemma_jv_members_push(before, k, v);
            }
        },
    }
}

/// Removes member `k` from the members `m` and returns its value (`serde_json::Map::remove`).
pub fn members_remove(m: &mut Vec<(String, Json)>, k: &str) -> (r: Option<Json>)
    ensures
        jv_members(final(m)@) == mremove(jv_members(old(m)@), k@),
        match r {
            Some(v) => mget(jv_members(old(m)@), k@) == Some(jv(v)),
            None => mget(jv_members(old(m)@), k@) is None,
        },
{
    proof {
        lemma_jv_members(m@);
    }
    match member_pos(m, k) {
        Some(p) => {
            let ghost before = m@;
            let (_, v) = m.remove(p);
            proof {
                lemma_jv_members(m@);
                assert(jv_members(m@) =~= jv_members(before).remove(p as int));
            }
            Some(v)
        },
        None => None,
    }
}

impl Json {
    /// Member `k` of this value, when it is an object that has one (`Value::get`).
    pub fn get(&self, k: &str) -> (r: Option<&Json>)
        ensures
            match r {
                Some(v) => jget(self@, k@) == Some(v@),
                None => jget(self@, k@) is None,
            },
    {
        match self {
            Json::Object(m) => {
                proof {
                    lemma_jv_members(m@);
                }
                match member_pos(m, k) {
                    Some(p) => Some(&m[p].1),
                    None => None,
                }
            },
            _ => None,
        }
    }

    /// The boolean, when this is one (`Value::as_bool`).
    pub fn as_bool(&self) -> (r: Option<bool>)
        ensures
            r == (match self@ {
                JsonV::Bool(b) => Some(b),
                _ => None::<bool>,
            }),
    {
        match self {
            Json::Bool(b) => Some(*b),
            _ => None,
        }
    }

    /// The integer, when this is an integer that fits in `i64` (`Value::as_i64`).
    pub fn as_i64(&self) -> (r: Option<i64>)
        ensures
            r == (match self@ {
                JsonV::Int(i) => Some(i),
                _ => None::<i64>,
            }),
    {
        match self {
            Json::Int(i) => Some(*i),
            _ => None,
        }
    }

    /// The string, when this is one (`Value::as_str`).
    pub fn as_str(&self) -> (r: Option<&str>)
        ensures
            match r {
                Some(s) => self@ == JsonV::Str(s@),
                None => !(self@ is Str),
            },
    {
        match self {
            Json::Str(s) => Some(s.as_str()),
            _ => None,
        }
    }

    /// A string value.
    pub fn string(s: &str) -> (r: Json)
        ensures
            r@ == JsonV::Str(s@),
    {
        Json::Str(String::from_str(s))
    }
}

/// Member `k` of `j` as a string, or the empty string when there is none
/// (`v.get(k).and_then(|x| x.as_str()).unwrap_or("")`).
pub open spec fn str_member_or_empty(j: JsonV, k: Seq<char>) -> Seq<char> {
    match jget(j, k) {
        Some(JsonV::Str(s)) => s,
        _ => Seq::empty(),
    }
}

pub fn get_str_or_empty(j: &Json, k: &str) -> (r: Vec<char>)
    ensures
        r@ == str_member_or_empty(j@, k@),
{
    match j.get(k) {
        Some(v) => match v.as_str() {
            Some(s) => crate::text::chars_of(s),
            None => Vec::new(),
        },
        None => Vec::new(),
    }
}

/// The name of the kind of a value, as used in error messages.
pub open spec fn kind_name(j: JsonV) -> Seq<char> {
    match j {
        JsonV::Null => "null"@,
        JsonV::Bool(_) => "boolean"@,
        JsonV::Int(_) | JsonV::UInt(_) | JsonV::Decimal(_) => "number"@,
        JsonV::Str(_) => "string"@,
        JsonV::Array(_) => "array"@,
        JsonV::Object(_) => "object"@,
    }
}

/// The name of the kind of a value (`null`, `boolean`, `number`, `string`, `array`, `object`).
pub fn value_type_name(v: &Json) -> (r: &'static str)
    ensures
        r@ == kind_name(v@),
{
    match v {
        Json::Null => "null",
        Json::Bool(_) => "boolean",
        Json::Int(_) => "number",
        Json::UInt(_) => "number",
        Json::Decimal(_) => "number",
        Json::Str(_) => "string",
        Json::Array(_) => "array",
        Json::Object(_) => "object",
    }
}

} // verus!
