use vstd::prelude::*;

use crate::text::str_eq;

verus! {

/// The kind of a flat memory.
#[derive(Debug, Clone, Copy, PartialEq, Eq, Structural)]
pub enum MemoryType {
    Knowledge,
    Decision,
    Convention,
    Troubleshooting,
    Reference,
    Other,
}

/// The canonical lower-case name of a memory type.
pub open spec fn memory_type_name(t: MemoryType) -> Seq<char> {
    match t {
        MemoryType::Knowledge => "knowledge"@,
        MemoryType::Decision => "decision"@,
        MemoryType::Convention => "convention"@,
        MemoryType::Troubleshooting => "troubleshooting"@,
        MemoryType::Reference => "reference"@,
        MemoryType::Other => "other"@,
    }
}

impl MemoryType {
    /// The canonical name, as stored in the database.
    pub fn as_str(&self) -> (r: &'static str)
        ensures
            r@ == memory_type_name(*self),
    {
        match self {
            MemoryType::Knowledge => "knowledge",
            MemoryType::Decision => "decision",
            MemoryType::Convention => "convention",
            MemoryType::Troubleshooting => "troubleshooting",
            MemoryType::Reference => "reference",
            MemoryType::Other => "other",
        }
    }

    /// The memory type with the given name; unknown names are `Other`.
    pub fn from_str(s: &str) -> (r: MemoryType)
        ensures
            r == memory_type_from_name(s@),
    {
        if str_eq(s, "knowledge") {
            MemoryType::Knowledge
        } else if str_eq(s, "decision") {
            MemoryType::Decision
        } else if str_eq(s, "convention") {
            MemoryType::Convention
        } else if str_eq(s, "troubleshooting") {
            MemoryType::Troubleshooting
        } else if str_eq(s, "reference") {
            MemoryType::Reference
        } else {
            MemoryType::Other
        }
    }
}

/// The memory type a stored name denotes; names that are not canonical denote `Other`.
pub open spec fn memory_type_from_name(s: Seq<char>) -> MemoryType {
    if s == "knowledge"@ {
        MemoryType::Knowledge
    } else if s == "decision"@ {
        MemoryType::Decision
    } else if s == "convention"@ {
        MemoryType::Convention
    } else if s == "troubleshooting"@ {
        MemoryType::Troubleshooting
    } else if s == "reference"@ {
        MemoryType::Reference
    } else {
        MemoryType::Other
    }
}

/// Reading back the stored name of a memory type gives that type.
pub proof fn lemma_memory_type_roundtrip(t: MemoryType)
    ensures
        memory_type_from_name(memory_type_name(t)) == t,
{
    reveal_strlit("knowledge");
    reveal_strlit("decision");
    reveal_strlit("convention");
    reveal_strlit("troubleshooting");
    reveal_strlit("reference");
    reveal_strlit("other");
    let n = memory_type_name(t);
    assert(n[0] != 'k' ==> n != "knowledge"@);
    assert(n[0] != 'd' ==> n != "decision"@);
    assert(n[0] != 'c' ==> n != "convention"@);
    assert(n[0] != 't' ==> n != "troubleshooting"@);
    assert(n[0] != 'r' ==> n != "reference"@);
}

/// A name read as a memory type is either that type's canonical name, or the type is `Other`.
pub proof fn lemma_memory_type_name_canonical(s: Seq<char>)
    ensures
        memory_type_name(memory_type_from_name(s)) == s || memory_type_from_name(s) == MemoryType::Other,
{
}

/// A flat memory: a titled prose entry with a hierarchical scope and flat tags.
pub struct Memory {
    pub id: String,
    pub title: String,
    pub content: String,
    pub memory_type: MemoryType,
    pub scope: String,
    pub author: Option<String>,
    pub tags: Vec<String>,
    pub created_at: String,
    pub updated_at: String,
}

/// A scope and the number of memories stored under exactly that scope.
pub struct ScopeInfo {
    pub scope: String,
    pub count: i64,
}

/// A tag and the number of memories that carry it.
pub struct TagInfo {
    pub tag: String,
    pub count: i64,
}

/// Summary of a recently updated memory.
pub struct RecentMemorySummary {
    pub id: String,
    pub title: String,
    pub scope: String,
    pub updated_at: String,
}

/// Store-wide counts and the most recently updated memories.
pub struct Stats {
    pub total_memories: i64,
    pub total_scopes: i64,
    pub total_tags: i64,
    pub recent_memories: Vec<RecentMemorySummary>,
}

/// An atomic fact attached to an entity.
pub struct Observation {
    pub id: String,
    pub content: String,
    pub created_at: String,
}

/// A node of the knowledge graph, unique by name within its scope.
pub struct Entity {
    pub id: String,
    pub name: String,
    pub entity_type: String,
    pub scope: String,
    pub observations: Vec<Observation>,
    pub created_at: String,
    pub updated_at: String,
}

/// A directed, typed edge between two entities.
pub struct Relation {
    pub id: String,
    pub from_entity: String,
    pub from_entity_id: String,
    pub to_entity: String,
    pub to_entity_id: String,
    pub relation_type: String,
    pub scope: String,
    pub created_at: String,
}

/// A set of entities and the relations between them.
pub struct Graph {
    pub entities: Vec<Entity>,
    pub relations: Vec<Relation>,
}

impl Graph {
    /// The graph with no entities and no relations.
    pub fn empty() -> (g: Graph)
        ensures
            g.entities@.len() == 0,
            g.relations@.len() == 0,
    {
        Graph { entities: Vec::new(), relations: Vec::new() }
    }
}

} // verus!
