//! SQL statements for the memory store and the knowledge graph: scope filters
//! (exact or hierarchical prefix, with LIKE wildcards escaped), tag filters,
//! and the search, listing and graph queries, each with its numbered parameters.
use vstd::prelude::*;

use crate::text::{chars_of, decimal, decimal_chars, push_all, push_str, string_of};

verus! {

/// A value bound to a numbered `?N` placeholder.
pub enum SqlValue {
    Text(String),
    Int(i64),
    Null,
}

/// The mathematical value of a [`SqlValue`].
pub enum SqlV {
    Text(Seq<char>),
    Int(i64),
    Null,
}

impl View for SqlValue {
    type V = SqlV;

    open spec fn view(&self) -> SqlV {
        match self {
            SqlValue::Text(s) => SqlV::Text(s@),
            SqlValue::Int(i) => SqlV::Int(*i),
            SqlValue::Null => SqlV::Null,
        }
    }
}

pub open spec fn values_view(v: Seq<SqlValue>) -> Seq<SqlV> {
    v.map_values(|p: SqlValue| p@)
}

/// A statement: its text, and the values of `?1`, `?2`, ... in order.
pub struct Statement {
    pub sql: String,
    pub params: Vec<SqlValue>,
}

// ── LIKE escaping ──

pub open spec fn escape_char(c: char) -> Seq<char> {
    if c == '\\' {
        seq!['\\', '\\']
    } else if c == '%' {
        seq!['\\', '%']
    } else if c == '_' {
        seq!['\\', '_']
    } else {
        seq![c]
    }
}

/// `s` with `\`, `%` and `_` each preceded by a `\`, so that a LIKE pattern
/// with `ESCAPE '\'` matches the text `s` literally.
pub open spec fn like_escaped(s: Seq<char>) -> Seq<char>
    decreases s.len(),
{
    if s.len() == 0 {
        Seq::empty()
    } else {
        escape_char(s[0]) + like_escaped(s.drop_first())
    }
}

/// The literal text a LIKE pattern with `ESCAPE '\'` stands for, reading `\x` as `x`.
pub open spec fn unescape_like(p: Seq<char>) -> Seq<char>
    decreases p.len(),
{
    if p.len() == 0 {
        Seq::empty()
    } else if p[0] == '\\' && p.len() >= 2 {
        seq![p[1]] + unescape_like(p.skip(2))
    } else {
        seq![p[0]] + unescape_like(p.drop_first())
    }
}

/// Whether the pattern holds a `%` or `_` that is not escaped, i.e. a wildcard.
pub open spec fn has_wildcard(p: Seq<char>) -> bool
    decreases p.len(),
{
    if p.len() == 0 {
        false
    } else if p[0] == '\\' && p.len() >= 2 {
        has_wildcard(p.skip(2))
    } else if p[0] == '%' || p[0] == '_' {
        true
    } else {
        has_wildcard(p.drop_first())
    }
}

proof fn lemma_escape_like_concat(a: Seq<char>, b: Seq<char>)
    ensures
        like_escaped(a + b) == like_escaped(a) + like_escaped(b),
    decreases a.len(),
{
    if a.len() == 0 {
        assert(a + b =~= b);
    } else {
        lemma_escape_like_concat(a.drop_first(), b);
        assert((a + b).drop_first() =~= a.drop_first() + b);
    }
}

/// Whether LIKE escaping puts a `\` before `c`.
pub open spec fn is_like_special(c: char) -> bool {
    c == '\\' || c == '%' || c == '_'
}

/// How many characters of `s` escaping marks.
pub open spec fn like_special_count(s: Seq<char>) -> nat
    decreases s.len(),
{
    if s.len() == 0 {
        0
    } else {
        (if is_like_special(s[0]) { 1nat } else { 0nat }) + like_special_count(s.drop_first())
    }
}

/// Escaping adds exactly one character per `\`, `%` and `_` of the text.
pub proof fn lemma_escape_like_length(s: Seq<char>)
    ensures
        like_escaped(s).len() == s.len() + like_special_count(s),
    decreases s.len(),
{
    if s.len() > 0 {
        lemma_escape_like_length(s.drop_first());
    }
}

/// Escaping hides every wildcard, and reading the escaped pattern back gives the original text.
pub proof fn lemma_escape_like_literal(s: Seq<char>)
    ensures
        unescape_like(like_escaped(s)) == s,
        !has_wildcard(like_escaped(s)),
    decreases s.len(),
{
    if s.len() > 0 {
        lemma_escape_like_literal(s.drop_first());
        let e = like_escaped(s);
        let r = like_escaped(s.drop_first());
        let c = s[0];
        if c == '\\' || c == '%' || c == '_' {
            assert(e.skip(2) =~= r);
        } else {
            assert(e.drop_first() =~= r);
        }
        assert(seq![c] + s.drop_first() =~= s);
    }
}

/// Whether two characters are alike in a `LIKE` comparison: equal up to ASCII
/// case, as SQLite's `LIKE` compares them.
pub open spec fn like_char_eq(a: char, b: char) -> bool {
    crate::text::ascii_lower(a) == crate::text::ascii_lower(b)
}

/// Whether the text `t` matches the `LIKE` pattern `p` with escape character
/// `\`: `%` matches any run of characters, `_` any one character, `\x` the
/// character `x`, and any other character itself, up to ASCII case.
pub open spec fn like_match(p: Seq<char>, t: Seq<char>) -> bool
    decreases p.len(), t.len(),
{
    if p.len() == 0 {
        t.len() == 0
    } else if p[0] == '\\' && p.len() >= 2 {
        t.len() > 0 && like_char_eq(t[0], p[1]) && like_match(p.skip(2), t.skip(1))
    } else if p[0] == '%' {
        like_match(p.skip(1), t) || (t.len() > 0 && like_match(p, t.skip(1)))
    } else if p[0] == '_' {
        t.len() > 0 && like_match(p.skip(1), t.skip(1))
    } else {
        t.len() > 0 && like_char_eq(t[0], p[0]) && like_match(p.skip(1), t.skip(1))
    }
}

/// Whether `t` begins with `s`, up to ASCII case.
pub open spec fn starts_with_ci(t: Seq<char>, s: Seq<char>) -> bool {
    t.len() >= s.len() && forall|i: int| 0 <= i < s.len() ==> like_char_eq(#[trigger] t[i], s[i])
}

proof fn lemma_percent_matches_all(p: Seq<char>, t: Seq<char>)
    requires
        p.len() == 1,
        p[0] == '%',
    ensures
        like_match(p, t),
    decreases t.len(),
{
    if t.len() > 0 {
        lemma_percent_matches_all(p, t.skip(1));
    } else {
        assert(p.skip(1) =~= Seq::<char>::empty());
        assert(like_match(p.skip(1), t));
    }
}

proof fn lemma_slash_char(c: char)
    ensures
        like_char_eq(c, '/') <==> c == '/',
{
}

/// Scopes are matched by prefix: the pattern of scope `s` (its text escaped,
/// then `/%`) matches exactly the scopes below `s`, i.e. the texts that begin
/// with `s` (up to ASCII case) followed by `/`; a `%` or `_` in `s` stands for
/// itself.
pub proof fn lemma_descendant_pattern_matches(s: Seq<char>, t: Seq<char>)
    ensures
        like_match(descendant_pattern(s), t) <==> (t.len() > s.len() && starts_with_ci(t, s) && t[s.len() as int] == '/'),
    decreases s.len(),
{
    reveal_strlit("/%");
    if s.len() == 0 {
        let p = descendant_pattern(s);
        assert(p =~= seq!['/', '%']);
        lemma_slash_char(if t.len() > 0 { t[0] } else { '/' });
        if t.len() > 0 {
            let u = t.skip(1);
            assert(p.skip(1) =~= seq!['%']);
            assert(seq!['%'].skip(1) =~= Seq::<char>::empty());
            assert(u.skip(u.len() as int) =~= Seq::<char>::empty());
            let p1 = p.skip(1);
            assert(p1.len() == 1 && p1[0] == '%');
            assert(p1.skip(1) =~= Seq::<char>::empty());
            lemma_percent_matches_all(p1, u);
        }
    } else {
        let c = s[0];
        let rest = s.drop_first();
        lemma_descendant_pattern_matches(rest, if t.len() > 0 { t.skip(1) } else { t });
        let p = descendant_pattern(s);
        let q = descendant_pattern(rest);
        assert(s =~= seq![c] + rest);
        lemma_escape_like_concat(seq![c], rest);
        assert(like_escaped(seq![c]) =~= escape_char(c)) by {
            assert(seq![c].drop_first() =~= Seq::<char>::empty());
        }
        assert(p =~= escape_char(c) + q);
        if c == '\\' || c == '%' || c == '_' {
            assert(p[0] == '\\' && p[1] == c);
            assert(p.skip(2) =~= q);
        } else {
            assert(p[0] == c);
            assert(p.skip(1) =~= q);
        }
        if t.len() > 0 {
            let u = t.skip(1);
            if like_match(p, t) {
                assert(like_char_eq(t[0], c));
                assert forall|i: int| 0 <= i < s.len() implies like_char_eq(#[trigger] t[i], s[i]) by {
                    if i > 0 {
                        assert(t[i] == u[i - 1]);
                        assert(s[i] == rest[i - 1]);
                    }
                }
                assert(t[s.len() as int] == u[rest.len() as int]);
            }
            if t.len() > s.len() && starts_with_ci(t, s) && t[s.len() as int] == '/' {
                assert(like_char_eq(t[0], s[0]));
                assert forall|i: int| 0 <= i < rest.len() implies like_char_eq(#[trigger] u[i], rest[i]) by {
                    assert(u[i] == t[i + 1]);
                    assert(rest[i] == s[i + 1]);
                }
                assert(u[rest.len() as int] == t[s.len() as int]);
            }
        }
    }
}

/// A text escaped for use inside a `LIKE` pattern with `ESCAPE '\\'`:
/// `\\`, `%` and `_` are each preceded by a backslash.
pub fn escape_like(s: &str) -> (r: String)
    ensures
        r@ == like_escaped(s@),
{
    let cs = chars_of(s);
    let e = escape_like_chars(cs.as_slice());
    string_of(e.as_slice())
}

/// [`like_escaped`] as an executable function over characters.
pub fn escape_like_chars(s: &[char]) -> (r: Vec<char>)
    ensures
        r@ == like_escaped(s@),
{
    let mut out: Vec<char> = Vec::new();
    let mut i: usize = 0;
    while i < s.len()
        invariant
            i <= s@.len(),
            out@ == like_escaped(s@.take(i as int)),
        decreases s.len() - i,
    {
        let c = s[i];
        proof {
            lemma_escape_like_concat(s@.take(i as int), seq![c]);
            assert(s@.take(i + 1) =~= s@.take(i as int) + seq![c]);
            assert(seq![c].drop_first() =~= Seq::<char>::empty());
            assert(like_escaped(seq![c].drop_first()) == Seq::<char>::empty());
            assert(like_escaped(seq![c]) =~= escape_char(c));
        }
        if c == '\\' || c == '%' || c == '_' {
            out.push('\\');
            out.push(c);
            assert(out@ =~= like_escaped(s@.take(i as int)) + escape_char(c));
        } else {
            out.push(c);
            assert(out@ =~= like_escaped(s@.take(i as int)) + escape_char(c));
        }
        i = i + 1;
    }
    assert(s@.take(s@.len() as int) =~= s@);
    out
}

/// The LIKE pattern that matches the strict descendants of `scope`: its escaped text, then `/%`.
pub open spec fn descendant_pattern(scope: Seq<char>) -> Seq<char> {
    like_escaped(scope) + "/%"@
}

// ── Placeholders and filters ──

/// `?N`.
pub open spec fn ph(n: nat) -> Seq<char> {
    "?"@ + decimal(n)
}

fn push_ph(dst: &mut Vec<char>, n: usize)
    ensures
        final(dst)@ == old(dst)@ + ph(n as nat),
{
    push_str(dst, "?");
    let d = decimal_chars(n as u64);
    push_all(dst, d.as_slice());
    assert(final(dst)@ =~= old(dst)@ + ph(n as nat));
}

/// `(col = ?i OR col LIKE ?(i+1) ESCAPE '\')`.
pub open spec fn scope_cond(col: Seq<char>, i: nat) -> Seq<char> {
    "("@ + col + " = "@ + ph(i) + " OR "@ + col + " LIKE "@ + ph(i + 1) + " ESCAPE '\\')"@
}

/// The conditions for `n` scopes with placeholders from `?i` on, joined by ` OR `.
pub open spec fn scope_conds(col: Seq<char>, n: nat, i: nat) -> Seq<char>
    decreases n,
{
    if n <= 1 {
        scope_cond(col, i)
    } else {
        scope_conds(col, (n - 1) as nat, i) + " OR "@ + scope_cond(col, (i + 2 * (n - 1)) as nat)
    }
}

/// The values of the scope placeholders: each scope, then its descendant pattern.
pub open spec fn scope_values(scopes: Seq<Seq<char>>) -> Seq<SqlV>
    decreases scopes.len(),
{
    if scopes.len() == 0 {
        Seq::empty()
    } else {
        scope_values(scopes.drop_last()) + seq![
            SqlV::Text(scopes.last()),
            SqlV::Text(descendant_pattern(scopes.last())),
        ]
    }
}

pub open spec fn strings_view(v: Seq<String>) -> Seq<Seq<char>> {
    v.map_values(|s: String| s@)
}

proof fn lemma_scope_values_len(scopes: Seq<Seq<char>>)
    ensures
        scope_values(scopes).len() == 2 * scopes.len(),
    decreases scopes.len(),
{
    if scopes.len() > 0 {
        lemma_scope_values_len(scopes.drop_last());
    }
}

fn push_scope_cond(sql: &mut Vec<char>, col: &str, idx: usize)
    requires
        idx + 1 <= usize::MAX,
    ensures
        final(sql)@ == old(sql)@ + scope_cond(col@, idx as nat),
{
    push_str(sql, "(");
    push_str(sql, col);
    push_str(sql, " = ");
    push_ph(sql, idx);
    push_str(sql, " OR ");
    push_str(sql, col);
    push_str(sql, " LIKE ");
    push_ph(sql, idx + 1);
    push_str(sql, " ESCAPE '\\')");
    assert(final(sql)@ =~= old(sql)@ + scope_cond(col@, idx as nat));
}

fn push_scope_values(params: &mut Vec<SqlValue>, s: &String)
    ensures
        values_view(final(params)@) == values_view(old(params)@) + seq![
            SqlV::Text(s@),
            SqlV::Text(descendant_pattern(s@)),
        ],
{
    let sc = chars_of(s.as_str());
    let mut pat = escape_like_chars(sc.as_slice());
    push_str(&mut pat, "/%");
    params.push(SqlValue::Text(s.clone()));
    params.push(SqlValue::Text(string_of(pat.as_slice())));
    assert(values_view(final(params)@) =~= values_view(old(params)@) + seq![
        SqlV::Text(s@),
        SqlV::Text(descendant_pattern(s@)),
    ]);
}

/// Appends the scope conditions for `scopes` (placeholders from `?i`) to `sql`,
/// and their values to `params`.
fn push_scope_conds(
    sql: &mut Vec<char>,
    params: &mut Vec<SqlValue>,
    col: &str,
    scopes: &[String],
    i: usize,
)
    requires
        scopes@.len() >= 1,
        i + 2 * scopes@.len() <= usize::MAX,
    ensures
        final(sql)@ == old(sql)@ + scope_conds(col@, scopes@.len(), i as nat),
        values_view(final(params)@) == values_view(old(params)@) + scope_values(strings_view(scopes@)),
{
    let mut k: usize = 0;
    let ghost sql0 = sql@;
    let ghost params0 = params@;
    while k < scopes.len()
        invariant
            k <= scopes@.len(),
            scopes@.len() >= 1,
            i + 2 * scopes@.len() <= usize::MAX,
            k == 0 ==> sql@ == sql0,
            k > 0 ==> sql@ == sql0 + scope_conds(col@, k as nat, i as nat),
            values_view(params@) == values_view(params0) + scope_values(strings_view(scopes@.take(k as int))),
        decreases scopes.len() - k,
    {
        let idx = i + 2 * k;
        let ghost before = sql@;
        if k > 0 {
            push_str(sql, " OR ");
        }
        push_scope_cond(sql, col, idx);
        let ghost pv = params@;
        push_scope_values(params, &scopes[k]);
        proof {
            if k > 0 {
                assert(sql@ =~= sql0 + scope_conds(col@, (k + 1) as nat, i as nat));
            } else {
                assert(sql@ =~= sql0 + scope_cond(col@, i as nat));
            }
            let sv = strings_view(scopes@.take(k + 1));
            assert(sv.drop_last() =~= strings_view(scopes@.take(k as int)));
            assert(sv.last() == scopes@[k as int]@);
            assert(values_view(params@) =~= values_view(params0) + scope_values(sv));
        }
        k = k + 1;
    }
    assert(scopes@.take(scopes@.len() as int) =~= scopes@);
}

/// The SQL that restricts `col` to the given scopes or their descendants:
/// ` AND (<conds>)`, or nothing when no scope is given.
pub open spec fn scope_filter_sql(col: Seq<char>, scopes: Option<Seq<Seq<char>>>, i: nat) -> Seq<char> {
    match scopes {
        Some(s) if s.len() > 0 => " AND ("@ + scope_conds(col, s.len(), i) + ")"@,
        _ => Seq::empty(),
    }
}

pub open spec fn scope_filter_values(scopes: Option<Seq<Seq<char>>>) -> Seq<SqlV> {
    match scopes {
        Some(s) => scope_values(s),
        None => Seq::empty(),
    }
}

pub open spec fn opt_strings_view(v: Option<Vec<String>>) -> Option<Seq<Seq<char>>> {
    match v {
        Some(v) => Some(strings_view(v@)),
        None => None,
    }
}

/// `?i, ?(i+1), ..., ?(i+n-1)`.
pub open spec fn ph_list(i: nat, n: nat) -> Seq<char>
    decreases n,
{
    if n <= 1 {
        ph(i)
    } else {
        ph_list(i, (n - 1) as nat) + ", "@ + ph((i + n - 1) as nat)
    }
}

fn push_ph_list(sql: &mut Vec<char>, i: usize, n: usize)
    requires
        n >= 1,
        i + n <= usize::MAX,
    ensures
        final(sql)@ == old(sql)@ + ph_list(i as nat, n as nat),
{
    let ghost sql0 = sql@;
    let mut k: usize = 0;
    while k < n
        invariant
            k <= n,
            n >= 1,
            i + n <= usize::MAX,
            k == 0 ==> sql@ == sql0,
            k > 0 ==> sql@ == sql0 + ph_list(i as nat, k as nat),
        decreases n - k,
    {
        let ghost before = sql@;
        if k > 0 {
            push_str(sql, ", ");
        }
        push_ph(sql, i + k);
        proof {
            if k > 0 {
                assert(sql@ =~= sql0 + ph_list(i as nat, (k + 1) as nat));
            } else {
                assert(sql@ =~= sql0 + ph_list(i as nat, 1));
            }
        }
        k = k + 1;
    }
}

pub open spec fn text_values(v: Seq<Seq<char>>) -> Seq<SqlV> {
    v.map_values(|s: Seq<char>| SqlV::Text(s))
}

fn push_texts(params: &mut Vec<SqlValue>, items: &[String])
    ensures
        values_view(final(params)@) == values_view(old(params)@) + text_values(strings_view(items@)),
{
    let ghost p0 = params@;
    let mut k: usize = 0;
    while k < items.len()
        invariant
            k <= items@.len(),
            values_view(params@) == values_view(p0) + text_values(strings_view(items@.take(k as int))),
        decreases items.len() - k,
    {
        let ghost pv = params@;
        params.push(SqlValue::Text(items[k].clone()));
        proof {
            assert(items@.take(k + 1) =~= items@.take(k as int).push(items@[k as int]));
            assert(strings_view(items@.take(k + 1)) =~= strings_view(items@.take(k as int)).push(items@[k as int]@));
            assert(text_values(strings_view(items@.take(k + 1))) =~= text_values(strings_view(items@.take(k as int))).push(SqlV::Text(items@[k as int]@)));
            assert(values_view(params@) =~= values_view(pv).push(SqlV::Text(items@[k as int]@)));
            assert(values_view(params@) =~= values_view(p0) + text_values(strings_view(items@.take(k + 1))));
        }
        k = k + 1;
    }
    assert(items@.take(items@.len() as int) =~= items@);
}

/// The SQL that restricts memories (`m.id`) by tags from `?i` on: with `all`,
/// a memory must carry every tag; otherwise any of them. Nothing when no tag is given.
pub open spec fn tag_filter_sql(tags: Option<Seq<Seq<char>>>, all: bool, i: nat) -> Seq<char> {
    match tags {
        Some(t) if t.len() > 0 => if all {
            " AND (SELECT COUNT(DISTINCT tag) FROM memory_tags WHERE memory_id = m.id AND tag IN ("@
                + ph_list(i, t.len()) + ")) = "@ + decimal(t.len())
        } else {
            " AND m.id IN (SELECT memory_id FROM memory_tags WHERE tag IN ("@ + ph_list(i, t.len()) + "))"@
        },
        _ => Seq::empty(),
    }
}

pub open spec fn tag_filter_values(tags: Option<Seq<Seq<char>>>) -> Seq<SqlV> {
    match tags {
        Some(t) => text_values(t),
        None => Seq::empty(),
    }
}

pub open spec fn opt_len(v: Option<Seq<Seq<char>>>) -> nat {
    match v {
        Some(s) => s.len(),
        None => 0,
    }
}

/// Appends the scope filter for `col` (placeholders from `?i`); returns the next placeholder number.
pub fn append_scope_filter(
    sql: &mut Vec<char>,
    params: &mut Vec<SqlValue>,
    i: usize,
    col: &str,
    scopes: Option<&Vec<String>>,
) -> (next: usize)
    requires
        match scopes {
            Some(s) => i + 2 * s@.len() <= usize::MAX,
            None => true,
        },
    ensures
        ({
            let sv = match scopes {
                Some(s) => Some(strings_view(s@)),
                None => None::<Seq<Seq<char>>>,
            };
            &&& final(sql)@ == old(sql)@ + scope_filter_sql(col@, sv, i as nat)
            &&& values_view(final(params)@) == values_view(old(params)@) + scope_filter_values(sv)
            &&& next == i + 2 * opt_len(sv)
        }),
{
    match scopes {
        Some(s) => {
            if s.len() == 0 {
                assert(values_view(params@) =~= values_view(params@) + scope_values(strings_view(s@)));
                assert(sql@ =~= sql@ + Seq::<char>::empty());
                return i;
            }
            push_str(sql, " AND (");
            push_scope_conds(sql, params, col, s.as_slice(), i);
            push_str(sql, ")");
            assert(final(sql)@ =~= old(sql)@ + scope_filter_sql(col@, Some(strings_view(s@)), i as nat));
            i + 2 * s.len()
        },
        None => {
            assert(values_view(params@) =~= values_view(params@) + Seq::<SqlV>::empty());
            assert(sql@ =~= sql@ + Seq::<char>::empty());
            i
        },
    }
}

/// Appends the tag filter (placeholders from `?i`); returns the next placeholder number.
pub fn append_tag_filter(
    sql: &mut Vec<char>,
    params: &mut Vec<SqlValue>,
    i: usize,
    tags: &Option<Vec<String>>,
    match_all: bool,
) -> (next: usize)
    requires
        match tags {
            Some(t) => i + t@.len() <= usize::MAX,
            None => true,
        },
    ensures
        final(sql)@ == old(sql)@ + tag_filter_sql(opt_strings_view(*tags), match_all, i as nat),
        values_view(final(params)@) == values_view(old(params)@) + tag_filter_values(opt_strings_view(*tags)),
        next == i + opt_len(opt_strings_view(*tags)),
{
    match tags {
        Some(t) => {
            if t.len() == 0 {
                assert(values_view(params@) =~= values_view(params@) + text_values(strings_view(t@)));
                assert(sql@ =~= sql@ + Seq::<char>::empty());
                return i;
            }
            if match_all {
                push_str(sql, " AND (SELECT COUNT(DISTINCT tag) FROM memory_tags WHERE memory_id = m.id AND tag IN (");
                push_ph_list(sql, i, t.len());
                push_str(sql, ")) = ");
                let d = decimal_chars(t.len() as u64);
                push_all(sql, d.as_slice());
            } else {
                push_str(sql, " AND m.id IN (SELECT memory_id FROM memory_tags WHERE tag IN (");
                push_ph_list(sql, i, t.len());
                push_str(sql, "))");
            }
            push_texts(params, t.as_slice());
            assert(final(sql)@ =~= old(sql)@ + tag_filter_sql(opt_strings_view(*tags), match_all, i as nat));
            i + t.len()
        },
        None => {
            assert(values_view(params@) =~= values_view(params@) + Seq::<SqlV>::empty());
            assert(sql@ =~= sql@ + Seq::<char>::empty());
            i
        },
    }
}

} // verus!

verus! {

use crate::query::{SearchParams, effective_limit, limit_of};

pub open spec fn statement_view(s: Statement) -> (Seq<char>, Seq<SqlV>) {
    (s.sql@, values_view(s.params@))
}

fn finish(sql: Vec<char>, params: Vec<SqlValue>) -> (r: Statement)
    ensures
        r.sql@ == sql@,
        r.params@ == params@,
{
    Statement { sql: string_of(sql.as_slice()), params }
}

fn lit(s: &str) -> (r: Vec<char>)
    ensures
        r@ == s@,
{
    chars_of(s)
}

pub open spec fn memory_fts_select() -> Seq<char> {
    "SELECT m.id, m.title, m.content, m.memory_type, m.scope, m.author, m.created_at, m.updated_at, fts.rank FROM memories_fts fts JOIN memories m ON m.rowid = fts.rowid WHERE memories_fts MATCH ?1"@
}

pub open spec fn memory_plain_select() -> Seq<char> {
    "SELECT m.id, m.title, m.content, m.memory_type, m.scope, m.author, m.created_at, m.updated_at FROM memories m WHERE 1=1"@
}

/// The text of the memory search for the given search: full-text ranked when
/// there is a query, most recently updated first otherwise; the scope and tag
/// filters follow, and the limit is the last placeholder.
pub open spec fn search_memories_sql(
    has_query: bool,
    scopes: Option<Seq<Seq<char>>>,
    tags: Option<Seq<Seq<char>>>,
    all: bool,
) -> Seq<char> {
    let first: nat = if has_query { 2 } else { 1 };
    let after_scopes = first + 2 * opt_len(scopes);
    let after_tags = after_scopes + opt_len(tags);
    if has_query {
        memory_fts_select() + scope_filter_sql("m.scope"@, scopes, first) + tag_filter_sql(tags, all, after_scopes)
            + " ORDER BY fts.rank LIMIT "@ + ph(after_tags)
    } else {
        memory_plain_select() + scope_filter_sql("m.scope"@, scopes, first) + tag_filter_sql(tags, all, after_scopes)
            + " ORDER BY updated_at DESC LIMIT "@ + ph(after_tags)
    }
}

/// The values of the memory search's placeholders, in order.
pub open spec fn search_memories_values(
    query: Option<Seq<char>>,
    scopes: Option<Seq<Seq<char>>>,
    tags: Option<Seq<Seq<char>>>,
    limit: nat,
) -> Seq<SqlV> {
    let q = match query {
        Some(q) => seq![SqlV::Text(q)],
        None => Seq::empty(),
    };
    q + scope_filter_values(scopes) + tag_filter_values(tags) + seq![SqlV::Int(limit as i64)]
}

pub open spec fn opt_string_view(s: Option<String>) -> Option<Seq<char>> {
    match s {
        Some(s) => Some(s@),
        None => None,
    }
}

/// The statement that searches memories as `p` asks.
pub fn search_memories_statement(p: &SearchParams) -> (r: Statement)
    requires
        match p.scope {
            Some(s) => s@.len() < usize::MAX / 4,
            None => true,
        },
        match p.tags {
            Some(t) => t@.len() < usize::MAX / 4,
            None => true,
        },
    ensures
        r.sql@ == search_memories_sql(
            p.query is Some,
            opt_strings_view(p.scope),
            opt_strings_view(p.tags),
            p.match_all_tags,
        ),
        values_view(r.params@) == search_memories_values(
            opt_string_view(p.query),
            opt_strings_view(p.scope),
            opt_strings_view(p.tags),
            limit_of(p.limit),
        ),
{
    let limit = effective_limit(p.limit);
    let mut params: Vec<SqlValue> = Vec::new();
    let mut sql: Vec<char>;
    let first: usize;
    match &p.query {
        Some(q) => {
            sql = lit("SELECT m.id, m.title, m.content, m.memory_type, m.scope, m.author, m.created_at, m.updated_at, fts.rank FROM memories_fts fts JOIN memories m ON m.rowid = fts.rowid WHERE memories_fts MATCH ?1");
            params.push(SqlValue::Text(q.clone()));
            first = 2;
        },
        None => {
            sql = lit("SELECT m.id, m.title, m.content, m.memory_type, m.scope, m.author, m.created_at, m.updated_at FROM memories m WHERE 1=1");
            first = 1;
        },
    }
    let ghost sql0 = sql@;
    let ghost p0 = values_view(params@);
    let scopes: Option<&Vec<String>> = match &p.scope {
        Some(s) => Some(s),
        None => None,
    };
    let after_scopes = append_scope_filter(&mut sql, &mut params, first, "m.scope", scopes);
    let ghost sql1 = sql@;
    let after_tags = append_tag_filter(&mut sql, &mut params, after_scopes, &p.tags, p.match_all_tags);
    let ghost sql2 = sql@;
    if p.query.is_some() {
        push_str(&mut sql, " ORDER BY fts.rank LIMIT ");
    } else {
        push_str(&mut sql, " ORDER BY updated_at DESC LIMIT ");
    }
    push_ph(&mut sql, after_tags);
    let ghost pv = params@;
    params.push(SqlValue::Int(limit as i64));
    proof {
        let sv = opt_strings_view(p.scope);
        assert(scopes matches Some(s) ==> strings_view(s@) == sv->0);
        assert(values_view(params@) =~= values_view(pv).push(SqlV::Int(limit as i64)));
        assert(values_view(params@) =~= search_memories_values(
            opt_string_view(p.query), sv, opt_strings_view(p.tags), limit_of(p.limit)));
        assert(sql@ =~= search_memories_sql(p.query is Some, sv, opt_strings_view(p.tags), p.match_all_tags));
    }
    finish(sql, params)
}

} // verus!

verus! {

/// The scopes listing, each with its number of memories: all scopes, or only
/// `prefix` and its descendants.
pub open spec fn list_scopes_sql(has_prefix: bool) -> Seq<char> {
    if has_prefix {
        "SELECT scope, COUNT(*) as count FROM memories WHERE "@ + scope_cond("scope"@, 1)
            + " GROUP BY scope ORDER BY scope"@
    } else {
        "SELECT scope, COUNT(*) as count FROM memories GROUP BY scope ORDER BY scope"@
    }
}

pub fn list_scopes_statement(prefix: Option<&str>) -> (r: Statement)
    ensures
        r.sql@ == list_scopes_sql(prefix is Some),
        values_view(r.params@) == (match prefix {
            Some(p) => scope_values(seq![p@]),
            None => Seq::<SqlV>::empty(),
        }),
{
    let mut params: Vec<SqlValue> = Vec::new();
    match prefix {
        Some(p) => {
            let mut sql = lit("SELECT scope, COUNT(*) as count FROM memories WHERE ");
            push_scope_cond(&mut sql, "scope", 1);
            push_str(&mut sql, " GROUP BY scope ORDER BY scope");
            let ps = String::from_str(p);
            push_scope_values(&mut params, &ps);
            proof {
                reveal_strlit("scope");
                assert(sql@ =~= list_scopes_sql(true));
                assert(seq![p@].drop_last() =~= Seq::<Seq<char>>::empty());
                assert(scope_values(seq![p@].drop_last()) =~= Seq::<SqlV>::empty());
                assert(seq![p@].last() == p@);
                assert(values_view(params@) =~= scope_values(seq![p@]));
            }
            finish(sql, params)
        },
        None => {
            let sql = lit("SELECT scope, COUNT(*) as count FROM memories GROUP BY scope ORDER BY scope");
            assert(values_view(params@) =~= Seq::<SqlV>::empty());
            finish(sql, params)
        },
    }
}

/// The tags listing, each with its number of memories, most used first: over
/// all memories, or over those in the given scopes and their descendants.
pub open spec fn list_tags_sql(scope_count: nat) -> Seq<char> {
    if scope_count > 0 {
        "SELECT mt.tag, COUNT(*) as count FROM memory_tags mt JOIN memories m ON m.id = mt.memory_id WHERE ("@
            + scope_conds("m.scope"@, scope_count, 1) + ") GROUP BY mt.tag ORDER BY count DESC, mt.tag"@
    } else {
        "SELECT tag, COUNT(*) as count FROM memory_tags GROUP BY tag ORDER BY count DESC, tag"@
    }
}

pub fn list_tags_statement(scopes: Option<&Vec<String>>) -> (r: Statement)
    requires
        match scopes {
            Some(s) => s@.len() < usize::MAX / 4,
            None => true,
        },
    ensures
        ({
            let n = match scopes {
                Some(s) => s@.len(),
                None => 0,
            };
            &&& r.sql@ == list_tags_sql(n)
            &&& values_view(r.params@) == (match scopes {
                Some(s) => scope_values(strings_view(s@)),
                None => Seq::<SqlV>::empty(),
            })
        }),
{
    let mut params: Vec<SqlValue> = Vec::new();
    match scopes {
        Some(s) => {
            if s.len() > 0 {
                let mut sql = lit("SELECT mt.tag, COUNT(*) as count FROM memory_tags mt JOIN memories m ON m.id = mt.memory_id WHERE (");
                push_scope_conds(&mut sql, &mut params, "m.scope", s.as_slice(), 1);
                push_str(&mut sql, ") GROUP BY mt.tag ORDER BY count DESC, mt.tag");
                assert(sql@ =~= list_tags_sql(s@.len()));
                assert(values_view(params@) =~= scope_values(strings_view(s@)));
                return finish(sql, params);
            }
            assert(strings_view(s@) =~= Seq::<Seq<char>>::empty());
        },
        None => {},
    }
    let sql = lit("SELECT tag, COUNT(*) as count FROM memory_tags GROUP BY tag ORDER BY count DESC, tag");
    assert(values_view(params@) =~= Seq::<SqlV>::empty());
    finish(sql, params)
}

pub open spec fn entity_columns() -> Seq<char> {
    "SELECT id, name, entity_type, scope, created_at, updated_at FROM entities WHERE "@
}

pub open spec fn relation_select() -> Seq<char> {
    "SELECT r.id, ef.name, r.from_entity, et.name, r.to_entity, r.relation_type, r.scope, r.created_at FROM relations r JOIN entities ef ON ef.id = r.from_entity JOIN entities et ON et.id = r.to_entity WHERE "@
}

/// The entities of the given scopes and their descendants, by name.
pub open spec fn graph_entities_sql(n: nat) -> Seq<char> {
    entity_columns() + "("@ + scope_conds("scope"@, n, 1) + ") ORDER BY name"@
}

/// The relations recorded in the given scopes and their descendants, by endpoint names.
pub open spec fn graph_relations_sql(n: nat) -> Seq<char> {
    relation_select() + "("@ + scope_conds("r.scope"@, n, 1) + ") ORDER BY ef.name, et.name"@
}

/// The two statements that read the graph of the given scopes: its entities,
/// then its relations; none when no scope is given (the graph is empty).
pub fn read_graph_statements(scopes: &Vec<String>) -> (r: Option<(Statement, Statement)>)
    requires
        scopes@.len() < usize::MAX / 4,
    ensures
        match r {
            None => scopes@.len() == 0,
            Some((e, rel)) => {
                &&& scopes@.len() > 0
                &&& e.sql@ == graph_entities_sql(scopes@.len())
                &&& values_view(e.params@) == scope_values(strings_view(scopes@))
                &&& rel.sql@ == graph_relations_sql(scopes@.len())
                &&& values_view(rel.params@) == scope_values(strings_view(scopes@))
            },
        },
{
    if scopes.len() == 0 {
        return None;
    }
    let mut ep: Vec<SqlValue> = Vec::new();
    let mut es = lit("SELECT id, name, entity_type, scope, created_at, updated_at FROM entities WHERE ");
    push_str(&mut es, "(");
    push_scope_conds(&mut es, &mut ep, "scope", scopes.as_slice(), 1);
    push_str(&mut es, ") ORDER BY name");
    assert(es@ =~= graph_entities_sql(scopes@.len()));
    assert(values_view(ep@) =~= scope_values(strings_view(scopes@)));
    let mut rp: Vec<SqlValue> = Vec::new();
    let mut rs = lit("SELECT r.id, ef.name, r.from_entity, et.name, r.to_entity, r.relation_type, r.scope, r.created_at FROM relations r JOIN entities ef ON ef.id = r.from_entity JOIN entities et ON et.id = r.to_entity WHERE ");
    push_str(&mut rs, "(");
    push_scope_conds(&mut rs, &mut rp, "r.scope", scopes.as_slice(), 1);
    push_str(&mut rs, ") ORDER BY ef.name, et.name");
    assert(rs@ =~= graph_relations_sql(scopes@.len()));
    assert(values_view(rp@) =~= scope_values(strings_view(scopes@)));
    Some((finish(es, ep), finish(rs, rp)))
}

pub open spec fn entity_search_select() -> Seq<char> {
    "SELECT DISTINCT e.id, MIN(rank) as best_rank FROM (SELECT e.id, fts.rank FROM entities_fts fts JOIN entities e ON e.rowid = fts.rowid WHERE entities_fts MATCH ?1 UNION ALL SELECT o.entity_id as id, fts.rank FROM observations_fts fts JOIN observations o ON o.rowid = fts.rowid WHERE observations_fts MATCH ?1) sub JOIN entities e ON e.id = sub.id WHERE 1=1"@
}

/// Full-text search over entity names and types and over observation
/// contents, one row per entity with its best rank, best first.
pub open spec fn search_entities_sql(scopes: Option<Seq<Seq<char>>>) -> Seq<char> {
    entity_search_select() + scope_filter_sql("e.scope"@, scopes, 2)
        + " GROUP BY e.id ORDER BY best_rank LIMIT "@ + ph(2 + 2 * opt_len(scopes))
}

pub fn search_entities_statement(query: &str, scopes: Option<&Vec<String>>, limit: usize) -> (r: Statement)
    requires
        match scopes {
            Some(s) => s@.len() < usize::MAX / 4,
            None => true,
        },
    ensures
        ({
            let sv = match scopes {
                Some(s) => Some(strings_view(s@)),
                None => None::<Seq<Seq<char>>>,
            };
            &&& r.sql@ == search_entities_sql(sv)
            &&& values_view(r.params@) == seq![SqlV::Text(query@)] + scope_filter_values(sv)
                + seq![SqlV::Int(limit as i64)]
        }),
{
    let mut params: Vec<SqlValue> = Vec::new();
    let mut sql = lit("SELECT DISTINCT e.id, MIN(rank) as best_rank FROM (SELECT e.id, fts.rank FROM entities_fts fts JOIN entities e ON e.rowid = fts.rowid WHERE entities_fts MATCH ?1 UNION ALL SELECT o.entity_id as id, fts.rank FROM observations_fts fts JOIN observations o ON o.rowid = fts.rowid WHERE observations_fts MATCH ?1) sub JOIN entities e ON e.id = sub.id WHERE 1=1");
    params.push(SqlValue::Text(String::from_str(query)));
    let ghost p1 = params@;
    let next = append_scope_filter(&mut sql, &mut params, 2, "e.scope", scopes);
    push_str(&mut sql, " GROUP BY e.id ORDER BY best_rank LIMIT ");
    push_ph(&mut sql, next);
    let ghost p2 = params@;
    params.push(SqlValue::Int(limit as i64));
    proof {
        assert(values_view(p1) =~= seq![SqlV::Text(query@)]);
        assert(values_view(params@) =~= values_view(p2).push(SqlV::Int(limit as i64)));
    }
    assert(values_view(params@) =~= seq![SqlV::Text(query@)] + scope_filter_values(match scopes {
        Some(s) => Some(strings_view(s@)),
        None => None::<Seq<Seq<char>>>,
    }) + seq![SqlV::Int(limit as i64)]);
    finish(sql, params)
}

/// The entities whose name is one of `names` (placeholders from `?1`) in one of
/// the scopes or their descendants (placeholders after the names).
pub open spec fn open_entities_sql(n_names: nat, n_scopes: nat) -> Seq<char> {
    entity_columns() + "name IN ("@ + ph_list(1, n_names) + ") AND ("@
        + scope_conds("scope"@, n_scopes, 1 + n_names) + ")"@
}

/// The statement that finds the named entities; none when no name or no scope is given.
pub fn open_entities_statement(names: &Vec<String>, scopes: &Vec<String>) -> (r: Option<Statement>)
    requires
        names@.len() < usize::MAX / 4,
        scopes@.len() < usize::MAX / 4,
    ensures
        match r {
            None => names@.len() == 0 || scopes@.len() == 0,
            Some(s) => {
                &&& names@.len() > 0 && scopes@.len() > 0
                &&& s.sql@ == open_entities_sql(names@.len(), scopes@.len())
                &&& values_view(s.params@) == text_values(strings_view(names@)) + scope_values(strings_view(scopes@))
            },
        },
{
    if names.len() == 0 || scopes.len() == 0 {
        return None;
    }
    let mut params: Vec<SqlValue> = Vec::new();
    let mut sql = lit("SELECT id, name, entity_type, scope, created_at, updated_at FROM entities WHERE ");
    push_str(&mut sql, "name IN (");
    push_ph_list(&mut sql, 1, names.len());
    push_str(&mut sql, ") AND (");
    push_texts(&mut params, names.as_slice());
    push_scope_conds(&mut sql, &mut params, "scope", scopes.as_slice(), 1 + names.len());
    push_str(&mut sql, ")");
    assert(sql@ =~= open_entities_sql(names@.len(), scopes@.len()));
    assert(values_view(params@) =~= text_values(strings_view(names@)) + scope_values(strings_view(scopes@)));
    Some(finish(sql, params))
}

/// The relations that start or end at one of the given entity ids (`?1..?n`, each used twice).
pub open spec fn relations_touching_sql(n: nat) -> Seq<char> {
    relation_select() + "r.from_entity IN ("@ + ph_list(1, n) + ") OR r.to_entity IN ("@ + ph_list(1, n) + ")"@
}

pub fn relations_touching_statement(ids: &Vec<String>) -> (r: Statement)
    requires
        0 < ids@.len() < usize::MAX / 4,
    ensures
        r.sql@ == relations_touching_sql(ids@.len()),
        values_view(r.params@) == text_values(strings_view(ids@)),
{
    let mut params: Vec<SqlValue> = Vec::new();
    let mut sql = lit("SELECT r.id, ef.name, r.from_entity, et.name, r.to_entity, r.relation_type, r.scope, r.created_at FROM relations r JOIN entities ef ON ef.id = r.from_entity JOIN entities et ON et.id = r.to_entity WHERE ");
    push_str(&mut sql, "r.from_entity IN (");
    push_ph_list(&mut sql, 1, ids.len());
    push_str(&mut sql, ") OR r.to_entity IN (");
    push_ph_list(&mut sql, 1, ids.len());
    push_str(&mut sql, ")");
    push_texts(&mut params, ids.as_slice());
    assert(sql@ =~= relations_touching_sql(ids@.len()));
    assert(values_view(params@) =~= text_values(strings_view(ids@)));
    finish(sql, params)
}

} // verus!

verus! {

// ── What the filters mean ──

/// Whether a memory whose tags are `m` passes a tag filter (SQL appended to
/// the search's `WHERE` clause) whose placeholders from `?i` are bound to the
/// tags `given`, read as SQL reads it: no filter lets every memory pass;
/// `m.id IN (SELECT memory_id FROM memory_tags WHERE tag IN (list))` holds
/// when some tag of the memory is in the list; `(SELECT COUNT(DISTINCT tag)
/// FROM memory_tags WHERE memory_id = m.id AND tag IN (list)) = n`, with `n`
/// the number of given tags, holds when that many distinct tags of the
/// memory are in the list. Any other text is not read (no memory passes).
pub open spec fn passes_tag_filter(filter: Seq<char>, i: nat, given: Seq<Seq<char>>, m: Set<Seq<char>>) -> bool {
    let list = ph_list(i, given.len());
    if filter.len() == 0 {
        true
    } else if filter == " AND m.id IN (SELECT memory_id FROM memory_tags WHERE tag IN ("@ + list + "))"@ {
        exists|t: Seq<char>| given.contains(t) && m.contains(t)
    } else if filter == " AND (SELECT COUNT(DISTINCT tag) FROM memory_tags WHERE memory_id = m.id AND tag IN ("@
        + list + ")) = "@ + decimal(given.len()) {
        m.filter(|t: Seq<char>| given.contains(t)).len() == given.len()
    } else {
        false
    }
}

/// Tag filtering: with `match_all_tags` a memory is found exactly when it
/// carries every one of the (distinct) given tags; without, exactly when it
/// carries at least one of them; with no tags, every memory passes.
pub proof fn lemma_tag_filter_meaning(tags: Option<Seq<Seq<char>>>, all: bool, i: nat, m: Set<Seq<char>>)
    requires
        m.finite(),
        tags matches Some(t) ==> t.no_duplicates(),
    ensures
        ({
            let given = match tags {
                Some(t) => t,
                None => Seq::empty(),
            };
            passes_tag_filter(tag_filter_sql(tags, all, i), i, given, m) <==> (
                if given.len() == 0 {
                    true
                } else if all {
                    forall|t: Seq<char>| given.contains(t) ==> m.contains(t)
                } else {
                    exists|t: Seq<char>| given.contains(t) && m.contains(t)
                })
        }),
{
    let given = match tags {
        Some(t) => t,
        None => Seq::empty(),
    };
    let n = given.len();
    if n > 0 {
        let list = ph_list(i, n);
        let any_form = " AND m.id IN (SELECT memory_id FROM memory_tags WHERE tag IN ("@ + list + "))"@;
        let all_head = " AND (SELECT COUNT(DISTINCT tag) FROM memory_tags WHERE memory_id = m.id AND tag IN ("@;
        let all_form = all_head + list + ")) = "@ + decimal(n);
        reveal_strlit(" AND m.id IN (SELECT memory_id FROM memory_tags WHERE tag IN (");
        reveal_strlit(" AND (SELECT COUNT(DISTINCT tag) FROM memory_tags WHERE memory_id = m.id AND tag IN (");
        reveal_strlit("))");
        reveal_strlit(")) = ");
        assert(any_form.len() > 0);
        assert(all_form.len() > 0);
        if all {
            assert(tag_filter_sql(tags, all, i) == all_form);
            assert(all_form[5] == all_head[5]);
            assert(any_form[5] == 'm');
            assert(all_form != any_form);
            let f = m.filter(|t: Seq<char>| given.contains(t));
            let g = given.to_set();
            given.unique_seq_to_set();
            assert(f.subset_of(g));
            vstd::set_lib::lemma_len_subset(f, g);
            if forall|t: Seq<char>| given.contains(t) ==> m.contains(t) {
                assert(f =~= g);
            }
            if f.len() == n {
                vstd::set_lib::lemma_subset_equality(f, g);
                assert forall|t: Seq<char>| given.contains(t) implies m.contains(t) by {
                    assert(g.contains(t));
                    assert(f.contains(t));
                }
            }
        } else {
            assert(tag_filter_sql(tags, all, i) == any_form);
        }
    } else {
        assert(tag_filter_sql(tags, all, i).len() == 0);
    }
}

/// Whether a relation from entity `from` to entity `to` is selected by a
/// condition on relations whose placeholders `?1..` are bound to `ids`, read
/// as SQL reads it: `r.from_entity IN (list)` and `r.to_entity IN (list)`
/// hold when that end is one of the ids, and are joined by `OR` or `AND`.
/// Any other text is not read (nothing is selected).
pub open spec fn relation_condition_selects(cond: Seq<char>, ids: Seq<Seq<char>>, from: Seq<char>, to: Seq<char>) -> bool {
    let list = ph_list(1, ids.len());
    let f = "r.from_entity IN ("@ + list + ")"@;
    let t = "r.to_entity IN ("@ + list + ")"@;
    if cond == f + " OR "@ + t {
        ids.contains(from) || ids.contains(to)
    } else if cond == f + " AND "@ + t {
        ids.contains(from) && ids.contains(to)
    } else if cond == f {
        ids.contains(from)
    } else if cond == t {
        ids.contains(to)
    } else {
        false
    }
}

/// Opening nodes loads every relation that touches an opened entity: the
/// statement selects relations with a condition (its placeholders bound to
/// the ids, see [`relations_touching_statement`]) that a relation meets
/// exactly when its source or its target is one of the ids.
pub proof fn lemma_relations_touching_meaning(ids: Seq<Seq<char>>)
    requires
        ids.len() > 0,
    ensures
        exists|cond: Seq<char>|
            relations_touching_sql(ids.len()) == relation_select() + cond
            && forall|from: Seq<char>, to: Seq<char>|
                #[trigger] relation_condition_selects(cond, ids, from, to) <==> (ids.contains(from) || ids.contains(to)),
{
    let list = ph_list(1, ids.len());
    let cond = "r.from_entity IN ("@ + list + ")"@ + " OR "@ + ("r.to_entity IN ("@ + list + ")"@);
    reveal_strlit(") OR r.to_entity IN (");
    reveal_strlit(")");
    reveal_strlit(" OR ");
    reveal_strlit("r.to_entity IN (");
    assert(relations_touching_sql(ids.len()) =~= relation_select() + cond);
}

} // verus!
