//! What the command-line client prints: memories, result tables, graphs and
//! listings, line by line.
use vstd::prelude::*;

use vstd::utf8::{decode_utf8, encode_utf8, is_char_boundary};

use crate::models::{memory_type_name, Graph, Memory, ScopeInfo, TagInfo};
use crate::sql::strings_view;
use crate::text::{chars_of, decimal, decimal_chars, push_all, push_str, string_of};

verus! {

// ── Text pieces ──

/// The length of a text in UTF-8 bytes.
pub open spec fn byte_len(s: Seq<char>) -> nat {
    encode_utf8(s).len()
}

/// A text cut to its first `n` bytes and marked with `...` when it is longer.
pub open spec fn clip(s: Seq<char>, n: nat) -> Seq<char> {
    if byte_len(s) > n {
        decode_utf8(encode_utf8(s).take(n as int)) + "..."@
    } else {
        s
    }
}

/// Whether a text can be cut at byte `n`: it is no longer, or byte `n` starts
/// a character (and its length, as every text's, fits in a `usize`).
pub open spec fn clippable(s: Seq<char>, n: nat) -> bool {
    &&& byte_len(s) <= usize::MAX
    &&& byte_len(s) > n ==> is_char_boundary(encode_utf8(s), n as int)
}

pub fn clip_text(s: &str, n: usize) -> (r: String)
    requires
        clippable(s@, n as nat),
    ensures
        r@ == clip(s@, n as nat),
{
    if s.len() > n {
        let (head, _) = s.split_at(n);
        proof {
            vstd::utf8::encode_utf8_decode_utf8(head@);
            assert(encode_utf8(s@).take(n as int) =~= encode_utf8(head@));
        }
        let mut out = chars_of(head);
        push_str(&mut out, "...");
        string_of(out.as_slice())
    } else {
        String::from_str(s)
    }
}

/// `n` spaces.
pub open spec fn spaces(n: nat) -> Seq<char> {
    Seq::new(n, |i: int| ' ')
}

/// A text padded with spaces on the right to `w` characters (as `{:<w}` formats it).
pub open spec fn pad(s: Seq<char>, w: nat) -> Seq<char> {
    if s.len() < w { s + spaces((w - s.len()) as nat) } else { s }
}

fn push_padded(out: &mut Vec<char>, s: &str, w: usize)
    ensures
        final(out)@ == old(out)@ + pad(s@, w as nat),
{
    let cs = chars_of(s);
    push_all(out, cs.as_slice());
    if cs.len() < w {
        let ghost base = out@;
        let mut k: usize = cs.len();
        while k < w
            invariant
                cs@ == s@,
                cs@.len() <= k <= w,
                out@ == base + spaces((k - cs@.len()) as nat),
            decreases w - k,
        {
            out.push(' ');
            assert(spaces((k + 1 - cs@.len()) as nat) =~= spaces((k - cs@.len()) as nat).push(' '));
            k = k + 1;
        }
        assert(out@ =~= old(out)@ + pad(s@, w as nat));
    } else {
        assert(out@ =~= old(out)@ + pad(s@, w as nat));
    }
}

/// `n` copies of `c`.
pub open spec fn repeat(c: char, n: nat) -> Seq<char> {
    Seq::new(n, |i: int| c)
}

fn repeat_line(c: char, n: usize) -> (r: String)
    ensures
        r@ == repeat(c, n as nat),
{
    let mut out: Vec<char> = Vec::new();
    let mut k: usize = 0;
    while k < n
        invariant
            k <= n,
            out@ == repeat(c, k as nat),
        decreases n - k,
    {
        out.push(c);
        assert(repeat(c, (k + 1) as nat) =~= repeat(c, k as nat).push(c));
        k = k + 1;
    }
    string_of(out.as_slice())
}

/// Items joined with a separator.
pub open spec fn join(items: Seq<Seq<char>>, sep: Seq<char>) -> Seq<char>
    decreases items.len(),
{
    if items.len() == 0 {
        Seq::empty()
    } else if items.len() == 1 {
        items[0]
    } else {
        join(items.drop_last(), sep) + sep + items.last()
    }
}

pub fn join_strings(items: &Vec<String>, sep: &str) -> (r: String)
    ensures
        r@ == join(strings_view(items@), sep@),
{
    let ghost iv = strings_view(items@);
    let mut out: Vec<char> = Vec::new();
    let mut i: usize = 0;
    while i < items.len()
        invariant
            i <= items@.len(),
            iv == strings_view(items@),
            out@ == join(iv.take(i as int), sep@),
        decreases items@.len() - i,
    {
        let ghost before = out@;
        if i > 0 {
            push_str(&mut out, sep);
        }
        push_str(&mut out, items[i].as_str());
        proof {
            let t = iv.take(i + 1);
            assert(t.drop_last() =~= iv.take(i as int));
            if i == 0 {
                assert(out@ =~= t[0]);
            } else {
                assert(out@ =~= join(t.drop_last(), sep@) + sep@ + t.last());
            }
        }
        i = i + 1;
    }
    assert(iv.take(i as int) =~= iv);
    string_of(out.as_slice())
}

/// A signed integer in decimal.
pub open spec fn signed_decimal(n: i64) -> Seq<char> {
    if n < 0 { seq!['-'] + decimal((-n) as nat) } else { decimal(n as nat) }
}

fn push_signed(out: &mut Vec<char>, n: i64)
    ensures
        final(out)@ == old(out)@ + signed_decimal(n),
{
    if n < 0 {
        out.push('-');
        let m: u64 = if n == i64::MIN { 9223372036854775808u64 } else { (-n) as u64 };
        let d = decimal_chars(m);
        push_all(out, d.as_slice());
        assert(out@ =~= old(out)@ + signed_decimal(n));
    } else {
        let d = decimal_chars(n as u64);
        push_all(out, d.as_slice());
    }
}

fn line_of(v: Vec<char>) -> (r: String)
    ensures
        r@ == v@,
{
    string_of(v.as_slice())
}

fn push_line(lines: &mut Vec<String>, v: Vec<char>)
    ensures
        strings_view(final(lines)@) == strings_view(old(lines)@).push(v@),
{
    let ghost before = lines@;
    lines.push(line_of(v));
    assert(strings_view(lines@) =~= strings_view(before).push(v@));
}

// ── A memory ──

/// How a memory is printed: its fields one per line (author and tags only
/// when it has them), a blank line, then its content, cut at 500 bytes.
pub open spec fn memory_lines(m: Memory) -> Seq<Seq<char>> {
    seq!["ID:      "@ + m.id@, "Title:   "@ + m.title@, "Scope:   "@ + m.scope@, "Type:    "@ + memory_type_name(m.memory_type)]
        + (match m.author {
            Some(a) => seq!["Author:  "@ + a@],
            None => Seq::empty(),
        })
        + (if m.tags@.len() > 0 { seq!["Tags:    "@ + join(strings_view(m.tags@), ", "@)] } else { Seq::empty() })
        + seq!["Updated: "@ + m.updated_at@, Seq::empty(), clip(m.content@, 500)]
}

fn labelled(label: &str, value: &str) -> (r: Vec<char>)
    ensures
        r@ == label@ + value@,
{
    let mut out = chars_of(label);
    push_str(&mut out, value);
    out
}

pub fn print_memory(m: &Memory) -> (r: Vec<String>)
    requires
        clippable(m.content@, 500),
    ensures
        strings_view(r@) == memory_lines(*m),
{
    let mut lines: Vec<String> = Vec::new();
    let ghost l0 = strings_view(lines@);
    push_line(&mut lines, labelled("ID:      ", m.id.as_str()));
    push_line(&mut lines, labelled("Title:   ", m.title.as_str()));
    push_line(&mut lines, labelled("Scope:   ", m.scope.as_str()));
    push_line(&mut lines, labelled("Type:    ", m.memory_type.as_str()));
    let ghost l4 = strings_view(lines@);
    assert(l4 =~= seq!["ID:      "@ + m.id@, "Title:   "@ + m.title@, "Scope:   "@ + m.scope@, "Type:    "@ + memory_type_name(m.memory_type)]);
    if let Some(a) = &m.author {
        push_line(&mut lines, labelled("Author:  ", a.as_str()));
    }
    let ghost l5 = strings_view(lines@);
    assert(l5 =~= l4 + (match m.author {
        Some(a) => seq!["Author:  "@ + a@],
        None => Seq::<Seq<char>>::empty(),
    }));
    if m.tags.len() > 0 {
        let t = join_strings(&m.tags, ", ");
        push_line(&mut lines, labelled("Tags:    ", t.as_str()));
    }
    let ghost l6 = strings_view(lines@);
    assert(l6 =~= l5 + (if m.tags@.len() > 0 { seq!["Tags:    "@ + join(strings_view(m.tags@), ", "@)] } else { Seq::<Seq<char>>::empty() }));
    push_line(&mut lines, labelled("Updated: ", m.updated_at.as_str()));
    push_line(&mut lines, Vec::new());
    let c = clip_text(m.content.as_str(), 500);
    push_line(&mut lines, chars_of(c.as_str()));
    assert(strings_view(lines@) =~= l6 + seq!["Updated: "@ + m.updated_at@, Seq::empty(), clip(m.content@, 500)]);
    lines
}

// ── Result tables ──

/// The header of the results table.
pub open spec fn results_header() -> Seq<char> {
    pad("ID"@, 36) + "  "@ + pad("Title"@, 30) + "  "@ + pad("Scope"@, 20) + "  Tags"@
}

/// A row of the results table: id, title (cut at 28 bytes) and scope (cut at
/// 18 bytes) padded to their columns, then the tags.
pub open spec fn result_row(m: Memory) -> Seq<char> {
    pad(m.id@, 36) + "  "@ + pad(clip(m.title@, 28), 30) + "  "@ + pad(clip(m.scope@, 18), 20) + "  "@ + join(strings_view(m.tags@), ", "@)
}

/// How search results are printed: `No memories found.`, or a table.
pub open spec fn results_lines(results: Seq<Memory>) -> Seq<Seq<char>> {
    if results.len() == 0 {
        seq!["No memories found."@]
    } else {
        seq![results_header(), repeat('-', 100)] + results.map_values(|m: Memory| result_row(m))
    }
}

fn result_row_exec(m: &Memory) -> (r: Vec<char>)
    requires
        clippable(m.title@, 28),
        clippable(m.scope@, 18),
    ensures
        r@ == result_row(*m),
{
    let mut out: Vec<char> = Vec::new();
    push_padded(&mut out, m.id.as_str(), 36);
    push_str(&mut out, "  ");
    let t = clip_text(m.title.as_str(), 28);
    push_padded(&mut out, t.as_str(), 30);
    push_str(&mut out, "  ");
    let s = clip_text(m.scope.as_str(), 18);
    push_padded(&mut out, s.as_str(), 20);
    push_str(&mut out, "  ");
    let tags = join_strings(&m.tags, ", ");
    push_str(&mut out, tags.as_str());
    assert(out@ =~= result_row(*m));
    out
}

pub fn print_memories(results: &Vec<Memory>) -> (r: Vec<String>)
    requires
        forall|i: int| 0 <= i < results@.len() ==> clippable((#[trigger] results@[i]).title@, 28) && clippable(results@[i].scope@, 18),
    ensures
        strings_view(r@) == results_lines(results@),
{
    let mut lines: Vec<String> = Vec::new();
    if results.len() == 0 {
        push_line(&mut lines, chars_of("No memories found."));
        assert(strings_view(lines@) =~= results_lines(results@));
        return lines;
    }
    let mut header: Vec<char> = Vec::new();
    push_padded(&mut header, "ID", 36);
    push_str(&mut header, "  ");
    push_padded(&mut header, "Title", 30);
    push_str(&mut header, "  ");
    push_padded(&mut header, "Scope", 20);
    push_str(&mut header, "  Tags");
    assert(header@ =~= results_header());
    push_line(&mut lines, header);
    let rule = repeat_line('-', 100);
    push_line(&mut lines, chars_of(rule.as_str()));
    let ghost head = strings_view(lines@);
    let mut i: usize = 0;
    while i < results.len()
        invariant
            i <= results@.len(),
            forall|k: int| 0 <= k < results@.len() ==> clippable((#[trigger] results@[k]).title@, 28) && clippable(results@[k].scope@, 18),
            head == seq![results_header(), repeat('-', 100)],
            strings_view(lines@) == head + results@.take(i as int).map_values(|m: Memory| result_row(m)),
        decreases results@.len() - i,
    {
        let row = result_row_exec(&results[i]);
        push_line(&mut lines, row);
        assert(results@.take(i + 1).map_values(|m: Memory| result_row(m)) =~=
            results@.take(i as int).map_values(|m: Memory| result_row(m)).push(result_row(results@[i as int])));
        i = i + 1;
    }
    assert(results@.take(i as int) =~= results@);
    lines
}

// ── Graphs ──

/// The lines of an entity: `  [type] name (scope)`, then `    - {content}` per observation.
pub open spec fn entity_lines(e: crate::models::Entity) -> Seq<Seq<char>> {
    seq!["  ["@ + e.entity_type@ + "] "@ + e.name@ + " ("@ + e.scope@ + ")"@]
        + e.observations@.map_values(|o: crate::models::Observation| "    - "@ + o.content@)
}

/// All entities' lines, in order.
pub open spec fn entities_lines(es: Seq<crate::models::Entity>) -> Seq<Seq<char>>
    decreases es.len(),
{
    if es.len() == 0 {
        Seq::empty()
    } else {
        entities_lines(es.drop_last()) + entity_lines(es.last())
    }
}

/// How a graph is printed: `Empty graph.`, or its entities with their
/// observations, then, when there are any, its relations.
pub open spec fn graph_lines(g: Graph) -> Seq<Seq<char>> {
    if g.entities@.len() == 0 && g.relations@.len() == 0 {
        seq!["Empty graph."@]
    } else {
        seq!["Entities ("@ + decimal(g.entities@.len()) + "):"@] + entities_lines(g.entities@)
            + if g.relations@.len() > 0 {
                seq![Seq::empty(), "Relations ("@ + decimal(g.relations@.len()) + "):"@]
                    + g.relations@.map_values(|r: crate::models::Relation| "  "@ + crate::tools::relation_label_text(r.from_entity@, r.relation_type@, r.to_entity@))
            } else {
                Seq::empty()
            }
    }
}

fn counted(label: &str, n: usize) -> (r: Vec<char>)
    ensures
        r@ == label@ + decimal(n as nat) + "):"@,
{
    let mut out = chars_of(label);
    let d = decimal_chars(n as u64);
    push_all(&mut out, d.as_slice());
    push_str(&mut out, "):");
    out
}

pub fn print_graph(g: &Graph) -> (r: Vec<String>)
    ensures
        strings_view(r@) == graph_lines(*g),
{
    let mut lines: Vec<String> = Vec::new();
    if g.entities.len() == 0 && g.relations.len() == 0 {
        push_line(&mut lines, chars_of("Empty graph."));
        assert(strings_view(lines@) =~= graph_lines(*g));
        return lines;
    }
    push_line(&mut lines, counted("Entities (", g.entities.len()));
    let ghost head = strings_view(lines@);
    let mut i: usize = 0;
    while i < g.entities.len()
        invariant
            i <= g.entities@.len(),
            strings_view(lines@) == head + entities_lines(g.entities@.take(i as int)),
        decreases g.entities@.len() - i,
    {
        let e = &g.entities[i];
        let mut first = chars_of("  [");
        push_str(&mut first, e.entity_type.as_str());
        push_str(&mut first, "] ");
        push_str(&mut first, e.name.as_str());
        push_str(&mut first, " (");
        push_str(&mut first, e.scope.as_str());
        push_str(&mut first, ")");
        let ghost before = strings_view(lines@);
        push_line(&mut lines, first);
        let mut k: usize = 0;
        while k < e.observations.len()
            invariant
                k <= e.observations@.len(),
                strings_view(lines@) == before + (seq!["  ["@ + e.entity_type@ + "] "@ + e.name@ + " ("@ + e.scope@ + ")"@]
                    + e.observations@.take(k as int).map_values(|o: crate::models::Observation| "    - "@ + o.content@)),
            decreases e.observations@.len() - k,
        {
            push_line(&mut lines, labelled("    - ", e.observations[k].content.as_str()));
            assert(e.observations@.take(k + 1).map_values(|o: crate::models::Observation| "    - "@ + o.content@) =~=
                e.observations@.take(k as int).map_values(|o: crate::models::Observation| "    - "@ + o.content@).push("    - "@ + e.observations@[k as int].content@));
            k = k + 1;
        }
        assert(e.observations@.take(k as int) =~= e.observations@);
        proof {
            assert(g.entities@.take(i + 1).drop_last() =~= g.entities@.take(i as int));
        }
        i = i + 1;
    }
    assert(g.entities@.take(i as int) =~= g.entities@);
    let ghost mid = strings_view(lines@);
    if g.relations.len() > 0 {
        push_line(&mut lines, Vec::new());
        push_line(&mut lines, counted("Relations (", g.relations.len()));
        let ghost rhead = strings_view(lines@);
        let mut j: usize = 0;
        while j < g.relations.len()
            invariant
                j <= g.relations@.len(),
                strings_view(lines@) == rhead + g.relations@.take(j as int).map_values(|r: crate::models::Relation| "  "@ + crate::tools::relation_label_text(r.from_entity@, r.relation_type@, r.to_entity@)),
            decreases g.relations@.len() - j,
        {
            let r = &g.relations[j];
            let label = crate::tools::relation_label(r.from_entity.as_str(), r.relation_type.as_str(), r.to_entity.as_str());
            push_line(&mut lines, labelled("  ", label.as_str()));
            assert(g.relations@.take(j + 1).map_values(|r: crate::models::Relation| "  "@ + crate::tools::relation_label_text(r.from_entity@, r.relation_type@, r.to_entity@)) =~=
                g.relations@.take(j as int).map_values(|r: crate::models::Relation| "  "@ + crate::tools::relation_label_text(r.from_entity@, r.relation_type@, r.to_entity@)).push(
                    "  "@ + crate::tools::relation_label_text(g.relations@[j as int].from_entity@, g.relations@[j as int].relation_type@, g.relations@[j as int].to_entity@)));
            j = j + 1;
        }
        assert(g.relations@.take(j as int) =~= g.relations@);
        assert(strings_view(lines@) =~= graph_lines(*g));
    } else {
        assert(strings_view(lines@) =~= graph_lines(*g));
    }
    lines
}

// ── Listings ──

/// How scopes are listed: `No scopes found.`, or a table of scope and count.
pub open spec fn scopes_lines(scopes: Seq<ScopeInfo>) -> Seq<Seq<char>> {
    if scopes.len() == 0 {
        seq!["No scopes found."@]
    } else {
        seq![pad("Scope"@, 40) + "  Memories"@, repeat('-', 52)]
            + scopes.map_values(|s: ScopeInfo| pad(s.scope@, 40) + "  "@ + signed_decimal(s.count))
    }
}

pub fn scopes_table(scopes: &Vec<ScopeInfo>) -> (r: Vec<String>)
    ensures
        strings_view(r@) == scopes_lines(scopes@),
{
    let mut lines: Vec<String> = Vec::new();
    if scopes.len() == 0 {
        push_line(&mut lines, chars_of("No scopes found."));
        assert(strings_view(lines@) =~= scopes_lines(scopes@));
        return lines;
    }
    let mut header: Vec<char> = Vec::new();
    push_padded(&mut header, "Scope", 40);
    push_str(&mut header, "  Memories");
    push_line(&mut lines, header);
    let rule = repeat_line('-', 52);
    push_line(&mut lines, chars_of(rule.as_str()));
    let ghost head = strings_view(lines@);
    let ghost f = |s: ScopeInfo| pad(s.scope@, 40) + "  "@ + signed_decimal(s.count);
    let mut i: usize = 0;
    while i < scopes.len()
        invariant
            i <= scopes@.len(),
            f == (|s: ScopeInfo| pad(s.scope@, 40) + "  "@ + signed_decimal(s.count)),
            strings_view(lines@) == head + scopes@.take(i as int).map_values(f),
        decreases scopes@.len() - i,
    {
        let mut row: Vec<char> = Vec::new();
        push_padded(&mut row, scopes[i].scope.as_str(), 40);
        push_str(&mut row, "  ");
        push_signed(&mut row, scopes[i].count);
        assert(row@ =~= f(scopes@[i as int]));
        push_line(&mut lines, row);
        assert(scopes@.take(i + 1).map_values(f) =~= scopes@.take(i as int).map_values(f).push(f(scopes@[i as int])));
        i = i + 1;
    }
    assert(scopes@.take(i as int) =~= scopes@);
    assert(strings_view(lines@) =~= scopes_lines(scopes@));
    lines
}

/// How tags are listed: `No tags found.`, or a table of tag and count.
pub open spec fn tags_lines(tags: Seq<TagInfo>) -> Seq<Seq<char>> {
    if tags.len() == 0 {
        seq!["No tags found."@]
    } else {
        seq![pad("Tag"@, 30) + "  Memories"@, repeat('-', 42)]
            + tags.map_values(|t: TagInfo| pad(t.tag@, 30) + "  "@ + signed_decimal(t.count))
    }
}

pub fn tags_table(tags: &Vec<TagInfo>) -> (r: Vec<String>)
    ensures
        strings_view(r@) == tags_lines(tags@),
{
    let mut lines: Vec<String> = Vec::new();
    if tags.len() == 0 {
        push_line(&mut lines, chars_of("No tags found."));
        assert(strings_view(lines@) =~= tags_lines(tags@));
        return lines;
    }
    let mut header: Vec<char> = Vec::new();
    push_padded(&mut header, "Tag", 30);
    push_str(&mut header, "  Memories");
    push_line(&mut lines, header);
    let rule = repeat_line('-', 42);
    push_line(&mut lines, chars_of(rule.as_str()));
    let ghost head = strings_view(lines@);
    let ghost f = |t: TagInfo| pad(t.tag@, 30) + "  "@ + signed_decimal(t.count);
    let mut i: usize = 0;
    while i < tags.len()
        invariant
            i <= tags@.len(),
            f == (|t: TagInfo| pad(t.tag@, 30) + "  "@ + signed_decimal(t.count)),
            strings_view(lines@) == head + tags@.take(i as int).map_values(f),
        decreases tags@.len() - i,
    {
        let mut row: Vec<char> = Vec::new();
        push_padded(&mut row, tags[i].tag.as_str(), 30);
        push_str(&mut row, "  ");
        push_signed(&mut row, tags[i].count);
        assert(row@ =~= f(tags@[i as int]));
        push_line(&mut lines, row);
        assert(tags@.take(i + 1).map_values(f) =~= tags@.take(i as int).map_values(f).push(f(tags@[i as int])));
        i = i + 1;
    }
    assert(tags@.take(i as int) =~= tags@);
    assert(strings_view(lines@) =~= tags_lines(tags@));
    lines
}

/// How an entity is shown on its own: `[type] name (scope)`, then `  - {content}` per observation.
pub open spec fn entity_summary(e: crate::models::Entity) -> Seq<Seq<char>> {
    seq!["["@ + e.entity_type@ + "] "@ + e.name@ + " ("@ + e.scope@ + ")"@]
        + e.observations@.map_values(|o: crate::models::Observation| "  - "@ + o.content@)
}

pub fn print_entity(e: &crate::models::Entity) -> (r: Vec<String>)
    ensures
        strings_view(r@) == entity_summary(*e),
{
    let mut lines: Vec<String> = Vec::new();
    let mut first = chars_of("[");
    push_str(&mut first, e.entity_type.as_str());
    push_str(&mut first, "] ");
    push_str(&mut first, e.name.as_str());
    push_str(&mut first, " (");
    push_str(&mut first, e.scope.as_str());
    push_str(&mut first, ")");
    push_line(&mut lines, first);
    let ghost head = strings_view(lines@);
    let mut k: usize = 0;
    while k < e.observations.len()
        invariant
            k <= e.observations@.len(),
            head == seq!["["@ + e.entity_type@ + "] "@ + e.name@ + " ("@ + e.scope@ + ")"@],
            strings_view(lines@) == head + e.observations@.take(k as int).map_values(|o: crate::models::Observation| "  - "@ + o.content@),
        decreases e.observations@.len() - k,
    {
        push_line(&mut lines, labelled("  - ", e.observations[k].content.as_str()));
        assert(e.observations@.take(k + 1).map_values(|o: crate::models::Observation| "  - "@ + o.content@) =~=
            e.observations@.take(k as int).map_values(|o: crate::models::Observation| "  - "@ + o.content@).push("  - "@ + e.observations@[k as int].content@));
        k = k + 1;
    }
    assert(e.observations@.take(k as int) =~= e.observations@);
    lines
}

} // verus!
