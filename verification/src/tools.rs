//! The MCP tools of the server: their parameters, how a new memory and a
//! search are made from them, the texts they answer with, and the project
//! protocol that `bootstrap_project` writes.
use vstd::prelude::*;

use crate::mailbox::opt_view;
use crate::models::{memory_type_from_name, Memory, MemoryType};
use crate::query::SearchParams;
use crate::sql::{opt_strings_view, strings_view};
use crate::text::{chars_eq, chars_of, push_str, string_of};

verus! {

// ── Parameters ──

/// Parameters of `store_memory`.
pub struct StoreMemoryParams {
    pub title: String,
    pub content: String,
    /// Hierarchical scope, e.g. `team-a/frontend`.
    pub scope: String,
    pub tags: Vec<String>,
    /// `knowledge` when absent.
    pub memory_type: Option<String>,
    pub author: Option<String>,
}

/// Parameters of `recall_memories`.
pub struct RecallMemoriesParams {
    pub query: Option<String>,
    /// A scope prefix: the scope and everything below it.
    pub scope: Option<String>,
    pub tags: Option<Vec<String>>,
    pub match_all_tags: bool,
    pub limit: Option<usize>,
}

/// Parameters of `get_memory`.
pub struct GetMemoryParams {
    pub id: String,
}

/// Parameters of `update_memory`; absent fields are left as they are.
pub struct UpdateMemoryParams {
    pub id: String,
    pub title: Option<String>,
    pub content: Option<String>,
    pub scope: Option<String>,
    /// Replaces all existing tags.
    pub tags: Option<Vec<String>>,
    pub memory_type: Option<String>,
}

/// Parameters of `forget_memory`.
pub struct ForgetMemoryParams {
    pub id: String,
}

/// Parameters of `list_scopes`.
pub struct ListScopesParams {
    pub prefix: Option<String>,
}

/// Parameters of `list_tags`.
pub struct ListTagsParams {
    pub scope: Option<String>,
}

/// An entity to create.
pub struct EntityInput {
    pub name: String,
    pub entity_type: String,
    pub observations: Vec<String>,
}

/// Parameters of `create_entities`.
pub struct CreateEntitiesParams {
    pub entities: Vec<EntityInput>,
    pub scope: String,
}

/// A relation to create or delete.
pub struct RelationInput {
    pub from: String,
    pub to: String,
    pub relation_type: String,
}

/// Parameters of `create_relations`.
pub struct CreateRelationsParams {
    pub relations: Vec<RelationInput>,
    pub scope: String,
}

/// Parameters of `add_observations`.
pub struct AddObservationsParams {
    pub entity_name: String,
    pub scope: String,
    pub observations: Vec<String>,
}

/// Parameters of `delete_entities`.
pub struct DeleteEntitiesParams {
    pub entity_names: Vec<String>,
    pub scope: String,
}

/// Parameters of `delete_observations`.
pub struct DeleteObservationsParams {
    pub entity_name: String,
    pub scope: String,
    pub observations: Vec<String>,
}

/// Parameters of `delete_relations`.
pub struct DeleteRelationsParams {
    pub relations: Vec<RelationInput>,
    pub scope: String,
}

/// Parameters of `read_graph`.
pub struct ReadGraphParams {
    pub scope: String,
}

/// Parameters of `search_nodes`.
pub struct SearchNodesParams {
    pub query: String,
    pub scope: Option<String>,
    pub limit: Option<usize>,
}

/// Parameters of `open_nodes`.
pub struct OpenNodesParams {
    pub names: Vec<String>,
    pub scope: String,
}

/// Parameters of `bootstrap_project`.
pub struct BootstrapProjectParams {
    pub project_name: String,
    /// When given, the project's scope is `parent_scope/project_name`.
    pub parent_scope: Option<String>,
    /// e.g. `web-app`, `library`, `api`, `monorepo`, `data-pipeline`.
    pub project_type: Option<String>,
}

// ── Identifiers and times ──

/// Whether `c` is a digit of Crockford's base 32 (as ULIDs are written).
pub open spec fn is_crockford_char(c: char) -> bool {
    ('0' <= c && c <= '9') || ('A' <= c && c <= 'Z' && c != 'I' && c != 'L' && c != 'O' && c != 'U')
}

/// A new ULID in its text form (`ulid::Ulid::new().to_string()`): 26
/// characters of Crockford's base 32. Its value rests on the time and on chance.
#[verifier::external_body]
pub(crate) fn new_ulid() -> (r: String)
    ensures
        r@.len() == 26,
        forall|i: int| 0 <= i < r@.len() ==> is_crockford_char(#[trigger] r@[i]),
{
    ulid::Ulid::new().to_string()
}

/// The current time in RFC 3339 (`chrono::Utc::now().to_rfc3339()`).
/// Nothing is stated of it: it is the time.
#[verifier::external_body]
pub(crate) fn now_rfc3339() -> (r: String) {
    chrono::Utc::now().to_rfc3339()
}

/// The memory `store_memory` stores: the parameters, with the type read from
/// its name (`knowledge` when none is given), the given id, and `now` as both
/// creation and update time.
pub open spec fn memory_type_param(t: Option<Seq<char>>) -> MemoryType {
    match t {
        Some(s) => memory_type_from_name(s),
        None => memory_type_from_name("knowledge"@),
    }
}

pub fn memory_from_params(params: StoreMemoryParams, id: String, now: String) -> (r: Memory)
    ensures
        r.id@ == id@,
        r.title@ == params.title@,
        r.content@ == params.content@,
        r.memory_type == memory_type_param(opt_view(params.memory_type)),
        r.scope@ == params.scope@,
        opt_view(r.author) == opt_view(params.author),
        strings_view(r.tags@) == strings_view(params.tags@),
        r.created_at@ == now@,
        r.updated_at@ == now@,
{
    let memory_type = match &params.memory_type {
        Some(t) => MemoryType::from_str(t.as_str()),
        None => MemoryType::from_str("knowledge"),
    };
    let created = now.clone();
    Memory {
        id,
        title: params.title,
        content: params.content,
        memory_type,
        scope: params.scope,
        author: params.author,
        tags: params.tags,
        created_at: created,
        updated_at: now,
    }
}

/// A new memory for `store_memory`: a fresh ULID as its id and the current time.
pub fn new_memory(params: StoreMemoryParams) -> (r: Memory)
    ensures
        r.id@.len() == 26,
        r.title@ == params.title@,
        r.content@ == params.content@,
        r.memory_type == memory_type_param(opt_view(params.memory_type)),
        r.scope@ == params.scope@,
        opt_view(r.author) == opt_view(params.author),
        strings_view(r.tags@) == strings_view(params.tags@),
        r.created_at@ == r.updated_at@,
{
    let now = now_rfc3339();
    let id = new_ulid();
    memory_from_params(params, id, now)
}

/// The search `recall_memories` runs: its parameters, the scope prefix as the only scope.
pub fn recall_search(params: RecallMemoriesParams) -> (r: SearchParams)
    ensures
        opt_view(r.query) == opt_view(params.query),
        opt_strings_view(r.scope) == (match params.scope {
            Some(s) => Some(seq![s@]),
            None => None,
        }),
        opt_strings_view(r.tags) == opt_strings_view(params.tags),
        r.match_all_tags == params.match_all_tags,
        r.limit == params.limit,
{
    let scope = match params.scope {
        Some(s) => {
            let mut v: Vec<String> = Vec::new();
            let ghost sv = s@;
            v.push(s);
            assert(strings_view(v@) =~= seq![sv]);
            Some(v)
        },
        None => None,
    };
    SearchParams {
        query: params.query,
        scope,
        tags: params.tags,
        match_all_tags: params.match_all_tags,
        limit: params.limit,
    }
}

// ── Answers ──

/// `{prefix}{id}`.
fn prefixed(prefix: &str, id: &str) -> (r: String)
    ensures
        r@ == prefix@ + id@,
{
    let mut out = chars_of(prefix);
    push_str(&mut out, id);
    string_of(out.as_slice())
}

/// `Error {what}: {e}`.
pub open spec fn error_text(what: Seq<char>, e: Seq<char>) -> Seq<char> {
    "Error "@ + what + ": "@ + e
}

fn error_string(what: &str, e: &str) -> (r: String)
    ensures
        r@ == error_text(what@, e@),
{
    let mut out = chars_of("Error ");
    push_str(&mut out, what);
    push_str(&mut out, ": ");
    push_str(&mut out, e);
    string_of(out.as_slice())
}

/// What `get_memory` answers: the memory's JSON text, `Memory not found: {id}`,
/// or `Error getting memory: {e}`.
pub fn get_memory_reply(id: &str, outcome: Result<Option<String>, String>) -> (r: String)
    ensures
        r@ == (match outcome {
            Ok(Some(text)) => text@,
            Ok(None) => "Memory not found: "@ + id@,
            Err(e) => error_text("getting memory"@, e@),
        }),
{
    match outcome {
        Ok(Some(text)) => text,
        Ok(None) => prefixed("Memory not found: ", id),
        Err(e) => error_string("getting memory", e.as_str()),
    }
}

/// What `forget_memory` answers: `Memory deleted: {id}`, `Memory not found: {id}`,
/// or `Error deleting memory: {e}`.
pub fn forget_memory_reply(id: &str, outcome: Result<bool, String>) -> (r: String)
    ensures
        r@ == (match outcome {
            Ok(true) => "Memory deleted: "@ + id@,
            Ok(false) => "Memory not found: "@ + id@,
            Err(e) => error_text("deleting memory"@, e@),
        }),
{
    match outcome {
        Ok(true) => prefixed("Memory deleted: ", id),
        Ok(false) => prefixed("Memory not found: ", id),
        Err(e) => error_string("deleting memory", e.as_str()),
    }
}

/// What `update_memory` answers, from whether the memory existed and what
/// reading it back gave.
pub fn update_memory_reply(id: &str, updated: Result<bool, String>, reread: Result<Option<String>, String>) -> (r: String)
    ensures
        r@ == (match updated {
            Ok(true) => match reread {
                Ok(Some(text)) => text@,
                Ok(None) => "Memory not found after update: "@ + id@,
                Err(e) => error_text("fetching updated memory"@, e@),
            },
            Ok(false) => "Memory not found: "@ + id@,
            Err(e) => error_text("updating memory"@, e@),
        }),
{
    match updated {
        Ok(true) => match reread {
            Ok(Some(text)) => text,
            Ok(None) => prefixed("Memory not found after update: ", id),
            Err(e) => error_string("fetching updated memory", e.as_str()),
        },
        Ok(false) => prefixed("Memory not found: ", id),
        Err(e) => error_string("updating memory", e.as_str()),
    }
}

/// `Entity '{name}' not found in scope '{scope}'`.
pub open spec fn entity_not_found_text(name: Seq<char>, scope: Seq<char>) -> Seq<char> {
    "Entity '"@ + name + "' not found in scope '"@ + scope + "'"@
}

pub fn entity_not_found(name: &str, scope: &str) -> (r: String)
    ensures
        r@ == entity_not_found_text(name@, scope@),
{
    let mut out = chars_of("Entity '");
    push_str(&mut out, name);
    push_str(&mut out, "' not found in scope '");
    push_str(&mut out, scope);
    push_str(&mut out, "'");
    string_of(out.as_slice())
}

/// `{from} --[{relation_type}]--> {to}`, how a relation is named in answers.
pub open spec fn relation_label_text(from: Seq<char>, relation_type: Seq<char>, to: Seq<char>) -> Seq<char> {
    from + " --["@ + relation_type + "]--> "@ + to
}

pub fn relation_label(from: &str, relation_type: &str, to: &str) -> (r: String)
    ensures
        r@ == relation_label_text(from@, relation_type@, to@),
{
    let mut out = chars_of(from);
    push_str(&mut out, " --[");
    push_str(&mut out, relation_type);
    push_str(&mut out, "]--> ");
    push_str(&mut out, to);
    string_of(out.as_slice())
}

/// `Error: entity '{from}' or '{to}' not found in scope '{scope}'`.
pub open spec fn relation_endpoint_missing_text(from: Seq<char>, to: Seq<char>, scope: Seq<char>) -> Seq<char> {
    "Error: entity '"@ + from + "' or '"@ + to + "' not found in scope '"@ + scope + "'"@
}

pub fn relation_endpoint_missing(from: &str, to: &str, scope: &str) -> (r: String)
    ensures
        r@ == relation_endpoint_missing_text(from@, to@, scope@),
{
    let mut out = chars_of("Error: entity '");
    push_str(&mut out, from);
    push_str(&mut out, "' or '");
    push_str(&mut out, to);
    push_str(&mut out, "' not found in scope '");
    push_str(&mut out, scope);
    push_str(&mut out, "'");
    string_of(out.as_slice())
}

// ── The project protocol ──

/// The project's scope: `parent/project` with a parent, else the project's name.
pub open spec fn project_scope_spec(project_name: Seq<char>, parent: Option<Seq<char>>) -> Seq<char> {
    match parent {
        Some(p) => p + "/"@ + project_name,
        None => project_name,
    }
}

pub fn project_scope(project_name: &str, parent: &Option<String>) -> (r: String)
    ensures
        r@ == project_scope_spec(project_name@, opt_view(*parent)),
{
    match parent {
        Some(p) => {
            let mut out = chars_of(p.as_str());
            out.push('/');
            push_str(&mut out, project_name);
            proof {
                reveal_strlit("/");
                assert(out@ =~= p@ + "/"@ + project_name@);
            }
            string_of(out.as_slice())
        },
        None => String::from_str(project_name),
    }
}

/// The family a project type belongs to, for the suggestions of the protocol.
#[derive(PartialEq, Eq, Structural)]
pub enum ProjectFamily {
    Frontend,
    Backend,
    Library,
    Monorepo,
    Data,
    General,
}

pub open spec fn project_family_spec(t: Seq<char>) -> ProjectFamily {
    if t == "web-app"@ || t == "frontend"@ {
        ProjectFamily::Frontend
    } else if t == "api"@ || t == "backend"@ {
        ProjectFamily::Backend
    } else if t == "library"@ || t == "sdk"@ {
        ProjectFamily::Library
    } else if t == "monorepo"@ {
        ProjectFamily::Monorepo
    } else if t == "data-pipeline"@ || t == "ml"@ {
        ProjectFamily::Data
    } else {
        ProjectFamily::General
    }
}

fn is_text(a: &Vec<char>, b: &str) -> (r: bool)
    ensures
        r == (a@ == b@),
{
    let bv = chars_of(b);
    chars_eq(a.as_slice(), bv.as_slice())
}

pub fn project_family(t: &str) -> (r: ProjectFamily)
    ensures
        r == project_family_spec(t@),
{
    let c = chars_of(t);
    if is_text(&c, "web-app") || is_text(&c, "frontend") {
        ProjectFamily::Frontend
    } else if is_text(&c, "api") || is_text(&c, "backend") {
        ProjectFamily::Backend
    } else if is_text(&c, "library") || is_text(&c, "sdk") {
        ProjectFamily::Library
    } else if is_text(&c, "monorepo") {
        ProjectFamily::Monorepo
    } else if is_text(&c, "data-pipeline") || is_text(&c, "ml") {
        ProjectFamily::Data
    } else {
        ProjectFamily::General
    }
}

/// The entity types suggested for a family of projects.
pub open spec fn entity_types_spec(f: ProjectFamily) -> Seq<char> {
    match f {
        ProjectFamily::Frontend => "component, page, service, store, api-endpoint, library, person"@,
        ProjectFamily::Backend => "service, endpoint, middleware, model, database, queue, person"@,
        ProjectFamily::Library => "module, function, type, trait, interface, example, person"@,
        ProjectFamily::Monorepo => "package, service, library, shared-module, pipeline, person"@,
        ProjectFamily::Data => "pipeline, model, dataset, feature, transform, scheduler, person"@,
        ProjectFamily::General => "component, service, module, concept, person, tool, dependency"@,
    }
}

pub fn entity_types(f: &ProjectFamily) -> (r: &'static str)
    ensures
        r@ == entity_types_spec(*f),
{
    match f {
        ProjectFamily::Frontend => "component, page, service, store, api-endpoint, library, person",
        ProjectFamily::Backend => "service, endpoint, middleware, model, database, queue, person",
        ProjectFamily::Library => "module, function, type, trait, interface, example, person",
        ProjectFamily::Monorepo => "package, service, library, shared-module, pipeline, person",
        ProjectFamily::Data => "pipeline, model, dataset, feature, transform, scheduler, person",
        ProjectFamily::General => "component, service, module, concept, person, tool, dependency",
    }
}

/// The relation types suggested for a family of projects.
pub open spec fn relation_types_spec(f: ProjectFamily) -> Seq<char> {
    match f {
        ProjectFamily::Frontend => "imports, renders, calls, depends_on, owned_by, routes_to"@,
        ProjectFamily::Backend => "calls, depends_on, reads_from, writes_to, owned_by, authenticates"@,
        ProjectFamily::Library => "exports, depends_on, implements, extends, documented_in, owned_by"@,
        ProjectFamily::Monorepo => "depends_on, imports, publishes, consumes, owned_by, deployed_with"@,
        ProjectFamily::Data => "feeds_into, transforms, reads_from, writes_to, trains, owned_by"@,
        ProjectFamily::General => "depends_on, calls, owns, uses, implements, extends"@,
    }
}

pub fn relation_types(f: &ProjectFamily) -> (r: &'static str)
    ensures
        r@ == relation_types_spec(*f),
{
    match f {
        ProjectFamily::Frontend => "imports, renders, calls, depends_on, owned_by, routes_to",
        ProjectFamily::Backend => "calls, depends_on, reads_from, writes_to, owned_by, authenticates",
        ProjectFamily::Library => "exports, depends_on, implements, extends, documented_in, owned_by",
        ProjectFamily::Monorepo => "depends_on, imports, publishes, consumes, owned_by, deployed_with",
        ProjectFamily::Data => "feeds_into, transforms, reads_from, writes_to, trains, owned_by",
        ProjectFamily::General => "depends_on, calls, owns, uses, implements, extends",
    }
}

/// The tags suggested for a family of projects, as Markdown list items.
pub open spec fn tag_suggestions_spec(f: ProjectFamily) -> Seq<char> {
    match f {
        ProjectFamily::Frontend => "- `#ui` — UI/UX decisions\n- `#state` — state management patterns\n- `#routing` — navigation and routing"@,
        ProjectFamily::Backend => "- `#endpoint` — API endpoint documentation\n- `#schema` — data model and schema changes\n- `#auth` — authentication and authorization"@,
        ProjectFamily::Library => "- `#public-api` — public interface decisions\n- `#semver` — version compatibility notes\n- `#docs` — documentation requirements"@,
        ProjectFamily::Monorepo => "- `#cross-pkg` — cross-package concerns\n- `#build` — build system and CI changes\n- `#shared` — shared module updates"@,
        ProjectFamily::Data => "- `#data-quality` — data validation rules\n- `#model` — model architecture decisions\n- `#pipeline` — pipeline configuration"@,
        ProjectFamily::General => "- `#architecture` — architectural decisions\n- `#integration` — integration points\n- `#infra` — infrastructure concerns"@,
    }
}

pub fn tag_suggestions(f: &ProjectFamily) -> (r: &'static str)
    ensures
        r@ == tag_suggestions_spec(*f),
{
    match f {
        ProjectFamily::Frontend => "- `#ui` — UI/UX decisions\n- `#state` — state management patterns\n- `#routing` — navigation and routing",
        ProjectFamily::Backend => "- `#endpoint` — API endpoint documentation\n- `#schema` — data model and schema changes\n- `#auth` — authentication and authorization",
        ProjectFamily::Library => "- `#public-api` — public interface decisions\n- `#semver` — version compatibility notes\n- `#docs` — documentation requirements",
        ProjectFamily::Monorepo => "- `#cross-pkg` — cross-package concerns\n- `#build` — build system and CI changes\n- `#shared` — shared module updates",
        ProjectFamily::Data => "- `#data-quality` — data validation rules\n- `#model` — model architecture decisions\n- `#pipeline` — pipeline configuration",
        ProjectFamily::General => "- `#architecture` — architectural decisions\n- `#integration` — integration points\n- `#infra` — infrastructure concerns",
    }
}

// ── Templates ──

/// The value of the first variable whose name is written, in braces, at the
/// start of `t` (`t[0]` being the opening brace).
pub open spec fn placeholder_at(t: Seq<char>, vars: Seq<(Seq<char>, Seq<char>)>) -> Option<(Seq<char>, Seq<char>)>
    decreases vars.len(),
{
    if vars.len() == 0 {
        None
    } else {
        let k = vars[0].0;
        if t.len() >= k.len() + 2 && t.subrange(1, (k.len() + 1) as int) == k && t[(k.len() + 1) as int] == '}' {
            Some(vars[0])
        } else {
            placeholder_at(t, vars.drop_first())
        }
    }
}

/// A template filled in: `{{` and `}}` stand for single braces, `{name}` for
/// the value of the variable `name`; everything else is copied.
pub open spec fn render(t: Seq<char>, vars: Seq<(Seq<char>, Seq<char>)>) -> Seq<char>
    decreases t.len(),
{
    if t.len() == 0 {
        Seq::empty()
    } else if t.len() >= 2 && t[0] == '{' && t[1] == '{' {
        seq!['{'] + render(t.skip(2), vars)
    } else if t.len() >= 2 && t[0] == '}' && t[1] == '}' {
        seq!['}'] + render(t.skip(2), vars)
    } else if t[0] == '{' && placeholder_at(t, vars) is Some {
        let kv = placeholder_at(t, vars)->0;
        proof {
            lemma_placeholder_fits(t, vars);
        }
        kv.1 + render(t.skip((kv.0.len() + 2) as int), vars)
    } else {
        seq![t[0]] + render(t.skip(1), vars)
    }
}

pub proof fn lemma_placeholder_fits(t: Seq<char>, vars: Seq<(Seq<char>, Seq<char>)>)
    ensures
        placeholder_at(t, vars) matches Some(kv) ==> t.len() >= kv.0.len() + 2,
    decreases vars.len(),
{
    if vars.len() > 0 {
        lemma_placeholder_fits(t, vars.drop_first());
    }
}

pub open spec fn vars_view(vars: Seq<(String, String)>) -> Seq<(Seq<char>, Seq<char>)> {
    vars.map_values(|v: (String, String)| (v.0@, v.1@))
}

/// Whether the text of `k` followed by `}` starts at position `i` of `t`.
fn name_at(t: &Vec<char>, i: usize, k: &Vec<char>) -> (r: bool)
    requires
        i < t@.len(),
    ensures
        r == (t@.len() - i >= k@.len() + 2 && t@.subrange(i + 1, i + 1 + k@.len()) == k@ && t@[i + 1 + k@.len()] == '}'),
{
    let n: usize = t.len();
    if n - i < 2 || n - i - 2 < k.len() {
        return false;
    }
    let mut j: usize = 0;
    while j < k.len()
        invariant
            n == t@.len(),
            i < n,
            n - i >= k@.len() + 2,
            j <= k@.len(),
            forall|m: int| 0 <= m < j ==> t@[i + 1 + m] == k@[m],
        decreases k@.len() - j,
    {
        if t[i + 1 + j] != k[j] {
            assert(t@.subrange(i + 1, i + 1 + k@.len())[j as int] == t@[i + 1 + j]);
            return false;
        }
        j = j + 1;
    }
    assert(t@.subrange(i + 1, i + 1 + k@.len()) =~= k@);
    t[i + 1 + k.len()] == '}'
}

/// The first variable whose name, in braces, starts at position `i` of `t`.
fn find_placeholder(t: &Vec<char>, i: usize, keys: &Vec<Vec<char>>, vars: &Vec<(String, String)>) -> (r: Option<usize>)
    requires
        i < t@.len(),
        keys@.len() == vars@.len(),
        forall|m: int| 0 <= m < keys@.len() ==> (#[trigger] keys@[m])@ == vars@[m].0@,
    ensures
        match r {
            Some(m) => m < vars@.len() && placeholder_at(t@.skip(i as int), vars_view(vars@)) == Some(vars_view(vars@)[m as int]),
            None => placeholder_at(t@.skip(i as int), vars_view(vars@)) is None,
        },
{
    let ghost vv = vars_view(vars@);
    let ghost ts = t@.skip(i as int);
    let mut m: usize = 0;
    assert(vv.skip(0) =~= vv);
    while m < keys.len()
        invariant
            i < t@.len(),
            m <= keys@.len(),
            keys@.len() == vars@.len(),
            vv == vars_view(vars@),
            vv.len() == vars@.len(),
            ts == t@.skip(i as int),
            forall|q: int| 0 <= q < keys@.len() ==> (#[trigger] keys@[q])@ == vars@[q].0@,
            placeholder_at(ts, vv) == placeholder_at(ts, vv.skip(m as int)),
        decreases keys@.len() - m,
    {
        let hit = name_at(t, i, &keys[m]);
        proof {
            let rest = vv.skip(m as int);
            assert(rest[0] == vv[m as int]);
            assert(vv[m as int] == (vars@[m as int].0@, vars@[m as int].1@));
            assert(rest.drop_first() =~= vv.skip(m + 1));
            let k = rest[0].0;
            if ts.len() >= k.len() + 2 {
                assert(ts.subrange(1, (k.len() + 1) as int) =~= t@.subrange(i + 1, i + 1 + k.len()));
                assert(ts[(k.len() + 1) as int] == t@[i + 1 + k.len()]);
            }
        }
        if hit {
            return Some(m);
        }
        m = m + 1;
    }
    proof {
        assert(vv.skip(m as int).len() == 0);
    }
    None
}

/// Fills in a template: `{{` and `}}` become single braces, `{name}` the value
/// of the first variable of that name.
pub fn render_template(template: &str, vars: &Vec<(String, String)>) -> (r: String)
    ensures
        r@ == render(template@, vars_view(vars@)),
{
    let t = chars_of(template);
    let ghost vv = vars_view(vars@);
    let mut keys: Vec<Vec<char>> = Vec::new();
    let mut q: usize = 0;
    while q < vars.len()
        invariant
            q <= vars@.len(),
            keys@.len() == q,
            forall|m: int| 0 <= m < q ==> (#[trigger] keys@[m])@ == vars@[m].0@,
        decreases vars@.len() - q,
    {
        keys.push(chars_of(vars[q].0.as_str()));
        q = q + 1;
    }
    let mut out: Vec<char> = Vec::new();
    let mut i: usize = 0;
    assert(t@.skip(0) =~= t@);
    assert(out@ + render(t@, vv) =~= render(t@, vv));
    while i < t.len()
        invariant
            i <= t@.len(),
            t@ == template@,
            vv == vars_view(vars@),
            keys@.len() == vars@.len(),
            forall|m: int| 0 <= m < keys@.len() ==> (#[trigger] keys@[m])@ == vars@[m].0@,
            out@ + render(t@.skip(i as int), vv) == render(t@, vv),
        decreases t@.len() - i,
    {
        let ghost ts = t@.skip(i as int);
        let c = t[i];
        assert(ts[0] == c);
        if i + 1 < t.len() && c == '{' && t[i + 1] == '{' {
            proof {
                assert(ts[1] == t@[i + 1]);
                assert(ts.skip(2) =~= t@.skip(i + 2));
                assert(out@ + (seq!['{'] + render(ts.skip(2), vv)) =~= out@.push('{') + render(t@.skip(i + 2), vv));
            }
            out.push('{');
            i = i + 2;
        } else if i + 1 < t.len() && c == '}' && t[i + 1] == '}' {
            proof {
                assert(ts[1] == t@[i + 1]);
                assert(ts.skip(2) =~= t@.skip(i + 2));
                assert(out@ + (seq!['}'] + render(ts.skip(2), vv)) =~= out@.push('}') + render(t@.skip(i + 2), vv));
            }
            out.push('}');
            i = i + 2;
        } else {
            proof {
                if ts.len() >= 2 {
                    assert(ts[1] == t@[i + 1]);
                }
            }
            let found = if c == '{' { find_placeholder(&t, i, &keys, vars) } else { None };
            match found {
                Some(m) => {
                    let ghost kv = vv[m as int];
                    proof {
                        lemma_placeholder_fits(ts, vv);
                        assert(kv == (vars@[m as int].0@, vars@[m as int].1@));
                        assert(keys@[m as int]@ == kv.0);
                        assert(ts.skip((kv.0.len() + 2) as int) =~= t@.skip(i + kv.0.len() + 2));
                        assert(out@ + (kv.1 + render(ts.skip((kv.0.len() + 2) as int), vv)) =~= (out@ + kv.1) + render(t@.skip(i + kv.0.len() + 2), vv));
                    }
                    push_str(&mut out, vars[m].1.as_str());
                    i = i + keys[m].len() + 2;
                },
                None => {
                    proof {
                        assert(ts.skip(1) =~= t@.skip(i + 1));
                        assert(out@ + (seq![c] + render(ts.skip(1), vv)) =~= out@.push(c) + render(t@.skip(i + 1), vv));
                    }
                    out.push(c);
                    i = i + 1;
                },
            }
        }
    }
    proof {
        assert(t@.skip(i as int) =~= Seq::<char>::empty());
        assert(out@ + Seq::<char>::empty() =~= out@);
    }
    string_of(out.as_slice())
}

/// The protocol text `bootstrap_project` fills in.
pub const BOOTSTRAP_TEMPLATE: &'static str = r##"## Stele Shared Memory Protocol — {project_name}

**Scope:** `{scope}` | **Type:** {project_type}
**Server:** [Stele](https://github.com/tasanakorn/stele) — shared memory for multi-agent coding assistants

---

### 1. Hybrid Storage Strategy

Stele provides two complementary memory systems. Use both.

#### Flat Memory (Scoped)
Operational facts, decisions, conventions, troubleshooting notes. Key-value-like prose entries with scope + tags.

```
store_memory(
  scope: "{scope}",
  title: "DB Port",
  content: "PostgreSQL on port 5432, connection pool max 20",
  memory_type: "convention",
  tags: ["#active", "#contract"]
)

recall_memories(query: "database port", scope: "{scope}")
```

#### Knowledge Graph (KG)
Structural relationships between entities — services, components, people, dependencies.

```
create_entities(entities: [
  {{name: "OrderService", entity_type: "service", observations: ["gRPC service, handles order lifecycle"]}},
  {{name: "PaymentService", entity_type: "service", observations: ["Stripe integration, PCI-compliant"]}}
], scope: "{scope}")

create_relations(relations: [
  {{from: "OrderService", to: "PaymentService", relation_type: "depends_on"}}
], scope: "{scope}")
```

**Rule of thumb:** If it's a **fact or note** → flat memory. If it's a **thing with relationships** → knowledge graph.

#### When to use which

| Use flat memories for...            | Use knowledge graph for...          |
| ----------------------------------- | ----------------------------------- |
| Decisions and their rationale       | Architecture and component maps     |
| Coding conventions and style rules  | People and ownership                |
| Troubleshooting steps               | Dependencies between services       |
| External references and links       | Data flow and call chains           |
| Onboarding notes                    | Entity facts (observations)         |

---

### 2. Knowledge Synchronization & Consistency

#### On Boot (every task start)
At the beginning of every task, pull the latest shared state. **Do not assume you know the current state.**

```
recall_memories(scope: "{scope}")
search_nodes(query: "*", scope: "{scope}")
```

#### Dependency Awareness
Before proposing architectural changes, check what depends on the module you're changing:

```
open_nodes(names: ["ModuleName"], scope: "{scope}")
read_graph(scope: "{scope}")
```

#### Consistency Rules
- Use the top-level scope `{top_scope}` for workspace-wide standards shared across all sub-projects.
- If a local rule in `{scope}` conflicts with a rule in `{top_scope}`, flag it with a `#conflict` tag.
- When creating a new service or module, call `bootstrap_project` with `parent_scope: "{scope}"` — use the returned content for the local instructions file. Do not hallucinate setup instructions.

---

### 3. Update-on-Change Protocol (Autonomous — no permission needed)

You MUST update remote memory immediately when any of the following change. Do not defer or ask for permission.

#### Contract Changes
If an API signature, env var, or shared interface changes:
```
store_memory(scope: "{scope}", title: "API change: ...", content: "...", tags: ["#contract", "#breaking"])
add_observations(entity_name: "ServiceName", scope: "{scope}", observations: ["New endpoint POST /v2/orders added"])
```

#### Lessons Learned
If a non-obvious bug is fixed, record it so other agents don't repeat the mistake:
```
add_observations(entity_name: "ServiceName", scope: "{scope}", observations: ["Gotcha: must set Content-Type header explicitly for multipart"])
store_memory(scope: "{scope}", title: "Fix: multipart upload", content: "...", tags: ["#wisdom"])
```

#### Relationship Discovery
If you discover Service A calls Service B, record it immediately:
```
create_relations(relations: [{{from: "A", to: "B", relation_type: "calls"}}], scope: "{scope}")
```

---

### 4. Tagging Convention

Always tag facts to enable cross-agent/cross-machine search:

| Tag          | Meaning                                                |
| ------------ | ------------------------------------------------------ |
| `#active`    | Currently implemented and enforced rules               |
| `#todo`      | Technical debt or pending migrations                   |
| `#contract`  | Inter-service API definitions and shared interfaces    |
| `#breaking`  | Changes that require other agents/services to update   |
| `#wisdom`    | Non-obvious technical discoveries and gotchas          |
| `#conflict`  | Local rule that conflicts with a workspace-level rule  |
| `#v[N]`      | Version-specific notes (e.g. `#v2-migration`)          |

Project-type-specific tags:
{tag_suggestions}

---

### 5. Scope Guide

Scopes are hierarchical, like message queue topics. Queries use **prefix matching**.

| Scope                | What it covers                       | Query `{top_scope}` matches? |
| -------------------- | ------------------------------------ | ---------------------------- |
| `{top_scope}`        | Workspace-wide standards             | Yes                          |
| `{scope}`            | This project                         | {scope_match}                |
| `{scope}/backend`    | Backend-specific knowledge           | {scope_match}                |
| `{scope}/frontend`   | Frontend-specific knowledge          | {scope_match}                |

Examples:
- `recall_memories(scope: "{scope}")` — matches `{scope}`, `{scope}/backend`, `{scope}/frontend`, etc.
- `recall_memories(scope: "{top_scope}")` — matches everything in the workspace.

---

### 6. Suggested Entity & Relation Types

**Entity types:** `{entity_types}`

**Relation types:** `{relation_types}`

---

### 7. First-Time Setup

If this is a new project with no existing memories:
1. Ask the user for the top-level workspace scope (if not already known).
2. Ask if there are sub-scopes to create (e.g. `{scope}/backend`, `{scope}/frontend`).
3. Create initial entities for the major components you can identify from the codebase.
4. Store any conventions or decisions the user mentions during onboarding.
"##;

/// The variables of the protocol: the project's name, type (`general` when
/// none is given), scope, top-level scope (the parent, or the project's scope
/// when it has none), whether the top-level scope matches the project's, and
/// the suggestions for the project's family.
pub open spec fn bootstrap_vars(p_name: Seq<char>, parent: Option<Seq<char>>, p_type: Option<Seq<char>>) -> Seq<(Seq<char>, Seq<char>)> {
    let scope = project_scope_spec(p_name, parent);
    let t = match p_type {
        Some(t) => t,
        None => "general"@,
    };
    let f = project_family_spec(t);
    seq![
        ("project_name"@, p_name),
        ("project_type"@, t),
        ("scope"@, scope),
        ("top_scope"@, match parent {
            Some(p) => p,
            None => scope,
        }),
        ("scope_match"@, if parent is Some { "Yes"@ } else { "N/A (top-level)"@ }),
        ("entity_types"@, entity_types_spec(f)),
        ("relation_types"@, relation_types_spec(f)),
        ("tag_suggestions"@, tag_suggestions_spec(f)),
    ]
}

fn var(k: &str, v: String) -> (r: (String, String))
    ensures
        r.0@ == k@,
        r.1@ == v@,
{
    (String::from_str(k), v)
}

/// The instructions section for a project: the protocol filled in with the project's variables.
pub fn bootstrap_project(params: &BootstrapProjectParams) -> (r: String)
    ensures
        r@ == render(BOOTSTRAP_TEMPLATE@, bootstrap_vars(params.project_name@, opt_view(params.parent_scope), opt_view(params.project_type))),
{
    let scope = project_scope(params.project_name.as_str(), &params.parent_scope);
    let project_type: String = match &params.project_type {
        Some(t) => t.clone(),
        None => String::from_str("general"),
    };
    let f = project_family(project_type.as_str());
    let top_scope = match &params.parent_scope {
        Some(p) => p.clone(),
        None => scope.clone(),
    };
    let scope_match = match &params.parent_scope {
        Some(_) => String::from_str("Yes"),
        None => String::from_str("N/A (top-level)"),
    };
    let mut vars: Vec<(String, String)> = Vec::new();
    vars.push(var("project_name", params.project_name.clone()));
    vars.push(var("project_type", project_type));
    vars.push(var("scope", scope));
    vars.push(var("top_scope", top_scope));
    vars.push(var("scope_match", scope_match));
    vars.push(var("entity_types", String::from_str(entity_types(&f))));
    vars.push(var("relation_types", String::from_str(relation_types(&f))));
    vars.push(var("tag_suggestions", String::from_str(tag_suggestions(&f))));
    assert(vars_view(vars@) =~= bootstrap_vars(params.project_name@, opt_view(params.parent_scope), opt_view(params.project_type)));
    render_template(BOOTSTRAP_TEMPLATE, &vars)
}

/// A template without braces is its own rendering, whatever the variables.
pub proof fn lemma_render_plain(t: Seq<char>, vars: Seq<(Seq<char>, Seq<char>)>)
    requires
        forall|i: int| 0 <= i < t.len() ==> #[trigger] t[i] != '{' && t[i] != '}',
    ensures
        render(t, vars) == t,
    decreases t.len(),
{
    if t.len() > 0 {
        let u = t.skip(1);
        assert forall|i: int| 0 <= i < u.len() implies #[trigger] u[i] != '{' && u[i] != '}' by {
            assert(u[i] == t[i + 1]);
        }
        lemma_render_plain(u, vars);
        assert(seq![t[0]] + u =~= t);
    }
}

} // verus!
