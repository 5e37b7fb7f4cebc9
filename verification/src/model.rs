//! The data the pipeline moves: directory instances, moderation entries,
//! per-instance fetch outcomes, and the nodes and edges of the final graph.
use vstd::prelude::*;

verus! {

/// One instance as the directory lists it: a domain name and the raw
/// user-count string the directory returned for it.
#[derive(Clone, Debug)]
pub struct Instance {
    pub name: String,
    pub users: String,
}

/// One entry of an instance's published moderation list: the moderated
/// domain, a severity category, and an optional comment.
#[derive(Clone, Debug)]
pub struct Moderation {
    pub domain: String,
    pub severity: String,
    pub comment: Option<String>,
}

/// What polling one instance contributed: the instance's name, whether its
/// moderation list is publicly readable, and the entries it published.
/// Every failure mode degrades to `is_public == false` with no entries, so
/// one unreachable instance never blocks the rest of the run.
#[derive(Debug)]
pub struct FetchOutcome {
    pub source: String,
    pub is_public: bool,
    pub entries: Vec<Moderation>,
}

/// A node of the final graph: an instance that some edge touches.
#[derive(Clone, Debug)]
pub struct GraphNode {
    pub id: String,
    pub users: i32,
    pub public_moderation: bool,
}

/// A directed edge of the final graph: `source` moderates `target`.
#[derive(Clone, Debug)]
pub struct GraphLink {
    pub source: String,
    pub target: String,
    pub severity: String,
    pub comment: Option<String>,
}

/// The final report: a timestamp and the derived nodes and edges.
#[derive(Debug)]
pub struct GraphData {
    pub last_updated: String,
    pub nodes: Vec<GraphNode>,
    pub links: Vec<GraphLink>,
}

/// The set of names, as character sequences, that a vector of strings holds.
pub open spec fn seq_names(v: Seq<String>) -> Set<Seq<char>> {
    Set::new(|n: Seq<char>| exists|i: int| 0 <= i < v.len() && #[trigger] v[i]@ == n)
}

/// No two strings of `v` hold the same characters.
pub open spec fn distinct_names(v: Seq<String>) -> bool {
    forall|i: int, j: int| #![trigger v[i], v[j]] 0 <= i < j < v.len() ==> v[i]@ != v[j]@
}

} // verus!
