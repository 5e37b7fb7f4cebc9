//! The graph accumulator: the pipeline's one stateful component.
//!
//! Each polled instance's outcome is folded into three collections — the
//! linked names, the publicly-listed names, and the edge list — and the
//! final node list is derived from them after every outcome is in. Folds
//! happen one at a time (the surrounding pipeline routes every outcome
//! through the single owner of this state), and every mutation only adds:
//! the linked and public sets grow, the edge list is appended to.
use vstd::prelude::*;
use crate::model::{
    distinct_names,
    seq_names,
    FetchOutcome,
    GraphData,
    GraphLink,
    GraphNode,
    Moderation,
};
use crate::roster::Roster;

verus! {

/// The edge a moderation entry of `source` yields.
pub open spec fn link_of(source: String, m: Moderation) -> GraphLink {
    GraphLink { source: source, target: m.domain, severity: m.severity, comment: m.comment }
}

/// The edges one outcome contributes: one per entry whose target domain is
/// a roster member, in entry order. Entries naming unknown domains yield no
/// edge.
pub open spec fn edges_of(
    source: String,
    entries: Seq<Moderation>,
    roster: Map<Seq<char>, i32>,
) -> Seq<GraphLink>
    decreases entries.len(),
{
    if entries.len() == 0 {
        Seq::empty()
    } else {
        edges_of(source, entries.drop_last(), roster) + (if roster.dom().contains(
            entries.last().domain@,
        ) {
            seq![link_of(source, entries.last())]
        } else {
            Seq::empty()
        })
    }
}

/// The roster-member domains that the first `k` entries target.
pub open spec fn targets_upto(
    entries: Seq<Moderation>,
    k: int,
    roster: Map<Seq<char>, i32>,
) -> Set<Seq<char>> {
    Set::new(
        |d: Seq<char>|
            roster.dom().contains(d) && exists|j: int|
                0 <= j < k && #[trigger] entries[j].domain@ == d,
    )
}

/// The names one outcome adds to the linked set: its own name when it
/// published at least one entry, and every roster-member domain its entries
/// target.
pub open spec fn folded_names(o: FetchOutcome, roster: Map<Seq<char>, i32>) -> Set<Seq<char>> {
    let targets = targets_upto(o.entries@, o.entries@.len() as int, roster);
    if o.entries@.len() > 0 {
        targets.insert(o.source@)
    } else {
        targets
    }
}

/// The name one outcome adds to the public set: its own, when it published
/// at least one entry from a publicly readable list.
pub open spec fn folded_public(o: FetchOutcome) -> Set<Seq<char>> {
    if o.entries@.len() > 0 && o.is_public {
        Set::empty().insert(o.source@)
    } else {
        Set::empty()
    }
}

/// The linked-name set after folding `o` over `linked`.
pub open spec fn linked_after(
    linked: Set<Seq<char>>,
    o: FetchOutcome,
    roster: Map<Seq<char>, i32>,
) -> Set<Seq<char>> {
    linked.union(folded_names(o, roster))
}

/// The public-name set after folding `o` over `public`.
pub open spec fn public_after(public: Set<Seq<char>>, o: FetchOutcome) -> Set<Seq<char>> {
    public.union(folded_public(o))
}

/// The edge list after folding `o` over `edges`.
pub open spec fn edges_after(
    edges: Seq<GraphLink>,
    o: FetchOutcome,
    roster: Map<Seq<char>, i32>,
) -> Seq<GraphLink> {
    edges + edges_of(o.source, o.entries@, roster)
}

/// The linked-name set after folding a whole completion stream, in
/// delivery order.
pub open spec fn linked_after_all(
    linked: Set<Seq<char>>,
    outcomes: Seq<FetchOutcome>,
    roster: Map<Seq<char>, i32>,
) -> Set<Seq<char>>
    decreases outcomes.len(),
{
    if outcomes.len() == 0 {
        linked
    } else {
        linked_after(linked_after_all(linked, outcomes.drop_last(), roster), outcomes.last(), roster)
    }
}

/// The public-name set after folding a whole completion stream.
pub open spec fn public_after_all(
    public: Set<Seq<char>>,
    outcomes: Seq<FetchOutcome>,
) -> Set<Seq<char>>
    decreases outcomes.len(),
{
    if outcomes.len() == 0 {
        public
    } else {
        public_after(public_after_all(public, outcomes.drop_last()), outcomes.last())
    }
}

/// The edge list after folding a whole completion stream, in delivery
/// order.
pub open spec fn edges_after_all(
    edges: Seq<GraphLink>,
    outcomes: Seq<FetchOutcome>,
    roster: Map<Seq<char>, i32>,
) -> Seq<GraphLink>
    decreases outcomes.len(),
{
    if outcomes.len() == 0 {
        edges
    } else {
        edges_after(edges_after_all(edges, outcomes.drop_last(), roster), outcomes.last(), roster)
    }
}

/// The node a linked name yields.
pub open spec fn node_of(name: String, users: i32, is_public: bool) -> GraphNode {
    GraphNode { id: name, users: users, public_moderation: is_public }
}

/// The nodes a linked-name list yields: one per name standing in the
/// roster, in list order, carrying the roster's user count and whether the
/// name is publicly listed. Names the roster does not know are skipped.
pub open spec fn nodes_of(
    linked: Seq<String>,
    roster: Map<Seq<char>, i32>,
    public: Set<Seq<char>>,
) -> Seq<GraphNode>
    decreases linked.len(),
{
    if linked.len() == 0 {
        Seq::empty()
    } else {
        nodes_of(linked.drop_last(), roster, public) + (if roster.dom().contains(
            linked.last()@,
        ) {
            seq![
                node_of(
                    linked.last(),
                    roster[linked.last()@],
                    public.contains(linked.last()@),
                ),
            ]
        } else {
            Seq::empty()
        })
    }
}

/// The set of node ids a node list holds.
pub open spec fn node_ids(nodes: Seq<GraphNode>) -> Set<Seq<char>> {
    Set::new(
        |n: Seq<char>| exists|i: int| 0 <= i < nodes.len() && #[trigger] nodes[i].id@ == n,
    )
}

/// Accumulated graph state: the linked names, the publicly-listed names and
/// the edges, folded outcome by outcome over a fixed roster.
pub struct Accumulator {
    roster: Roster,
    linked: Vec<String>,
    public_list: Vec<String>,
    edges: Vec<GraphLink>,
}

impl Accumulator {
    /// The roster map targets are checked against.
    pub closed spec fn roster_map(&self) -> Map<Seq<char>, i32> {
        self.roster@
    }

    /// The names that will appear in the final node set.
    pub closed spec fn linked_names(&self) -> Set<Seq<char>> {
        seq_names(self.linked@)
    }

    /// The linked names in insertion order, each exactly once.
    pub closed spec fn linked_seq(&self) -> Seq<String> {
        self.linked@
    }

    /// The names whose moderation list is publicly readable.
    pub closed spec fn public_names(&self) -> Set<Seq<char>> {
        seq_names(self.public_list@)
    }

    /// The edges accumulated so far, in completion order.
    pub closed spec fn edges(&self) -> Seq<GraphLink> {
        self.edges@
    }

    /// Well-formed: the roster is sound, the name lists hold each name at
    /// most once, every publicly-listed name is linked, and every edge
    /// targets a roster member.
    pub closed spec fn wf(&self) -> bool {
        self.roster.wf() && distinct_names(self.linked@) && distinct_names(self.public_list@)
            && seq_names(self.public_list@).subset_of(seq_names(self.linked@)) && forall|i: int|
            0 <= i < self.edges@.len() ==> self.roster@.dom().contains(
                #[trigger] self.edges@[i].target@,
            )
    }

    /// A fresh accumulator over `roster`: nothing linked, nothing public,
    /// no edges.
    pub fn new(roster: Roster) -> (acc: Accumulator)
        ensures
            roster.wf() ==> acc.wf(),
            acc.roster_map() == roster@,
            acc.linked_names() =~= Set::<Seq<char>>::empty(),
            acc.public_names() =~= Set::<Seq<char>>::empty(),
            acc.linked_seq() == Seq::<String>::empty(),
            acc.edges() == Seq::<GraphLink>::empty(),
    {
        let acc = Accumulator {
            roster,
            linked: Vec::new(),
            public_list: Vec::new(),
            edges: Vec::new(),
        };
        proof {
            assert(acc.linked_names() =~= Set::<Seq<char>>::empty());
            assert(acc.public_names() =~= Set::<Seq<char>>::empty());
        }
        acc
    }

    /// Folds one outcome into the graph state, the per-outcome critical
    /// section of the pipeline. If the outcome published any entries, its
    /// source becomes linked (and publicly listed, when its list was
    /// public); each entry whose target the roster knows links the target
    /// and appends one edge; entries naming unknown domains are dropped.
    /// Folding only adds: nothing is ever removed.
    pub fn fold(&mut self, outcome: FetchOutcome)
        ensures
            old(self).wf() ==> final(self).wf(),
            final(self).roster_map() == old(self).roster_map(),
            final(self).linked_names() =~= linked_after(
                old(self).linked_names(),
                outcome,
                old(self).roster_map(),
            ),
            final(self).public_names() =~= public_after(old(self).public_names(), outcome),
            final(self).edges() == edges_after(
                old(self).edges(),
                outcome,
                old(self).roster_map(),
            ),
    {
        let FetchOutcome { source, is_public, entries } = outcome;
        if entries.len() > 0 {
            insert_name(&mut self.linked, &source);
            if is_public {
                insert_name(&mut self.public_list, &source);
            }
        }
        let ghost mid = *self;
        let ghost r = self.roster@;
        let mut i: usize = 0;
        while i < entries.len()
            invariant
                i <= entries@.len(),
                self.roster == mid.roster,
                self.public_list@ == mid.public_list@,
                self.edges@ == mid.edges@ + edges_of(source, entries@.subrange(0, i as int), r),
                seq_names(self.linked@) =~= seq_names(mid.linked@).union(
                    targets_upto(entries@, i as int, r),
                ),
                distinct_names(mid.linked@) ==> distinct_names(self.linked@),
                seq_names(mid.linked@).subset_of(seq_names(self.linked@)),
                forall|k: int|
                    mid.edges@.len() <= k < self.edges@.len() ==> r.dom().contains(
                        #[trigger] self.edges@[k].target@,
                    ),
            decreases entries@.len() - i,
        {
            let m = &entries[i];
            if self.roster.contains_name(&m.domain) {
                insert_name(&mut self.linked, &m.domain);
                let comment = match &m.comment {
                    Some(c) => Some(c.clone()),
                    None => None,
                };
                self.edges.push(
                    GraphLink {
                        source: source.clone(),
                        target: m.domain.clone(),
                        severity: m.severity.clone(),
                        comment,
                    },
                );
                proof {
                    assert(self.edges@.last() == link_of(source, entries@[i as int]));
                }
            }
            proof {
                assert(entries@.subrange(0, i + 1).drop_last() =~= entries@.subrange(0, i as int));
                assert(entries@.subrange(0, i + 1).last() == entries@[i as int]);
                assert(self.edges@ == mid.edges@ + edges_of(
                    source,
                    entries@.subrange(0, i + 1),
                    r,
                ));
                assert forall|d: Seq<char>| targets_upto(entries@, i + 1, r).contains(d) implies
                    targets_upto(entries@, i as int, r).contains(d) || (r.dom().contains(d) && d
                    == entries@[i as int].domain@) by {
                    let j = choose|j: int| 0 <= j < i + 1 && #[trigger] entries@[j].domain@ == d;
                    if j < i {
                        assert(entries@[j].domain@ == d);
                    }
                }
                assert(seq_names(self.linked@) =~= seq_names(mid.linked@).union(
                    targets_upto(entries@, i + 1, r),
                ));
            }
            i += 1;
        }
        proof {
            assert(entries@.subrange(0, entries@.len() as int) =~= entries@);
            assert(final(self).linked_names() =~= linked_after(
                old(self).linked_names(),
                outcome,
                old(self).roster_map(),
            ));
            assert(final(self).public_names() =~= public_after(old(self).public_names(), outcome));
            if old(self).wf() {
                assert(final(self).wf());
            }
        }
    }

    /// Folds a whole completion stream, in delivery order: the hard barrier
    /// before the node list may be derived. The result is as if each
    /// outcome had been folded on arrival.
    pub fn fold_all(&mut self, outcomes: Vec<FetchOutcome>)
        ensures
            old(self).wf() ==> final(self).wf(),
            final(self).roster_map() == old(self).roster_map(),
            final(self).linked_names() =~= linked_after_all(
                old(self).linked_names(),
                outcomes@,
                old(self).roster_map(),
            ),
            final(self).public_names() =~= public_after_all(old(self).public_names(), outcomes@),
            final(self).edges() == edges_after_all(
                old(self).edges(),
                outcomes@,
                old(self).roster_map(),
            ),
    {
        let mut outcomes = outcomes;
        let ghost all = outcomes@;
        let count = outcomes.len();
        proof {
            assert(all.len() == count);
        }
        let mut i: usize = 0;
        while outcomes.len() > 0
            invariant
                all.len() <= usize::MAX,
                i + outcomes@.len() == all.len(),
                outcomes@ == all.subrange(i as int, all.len() as int),
                old(self).wf() ==> self.wf(),
                self.roster_map() == old(self).roster_map(),
                self.linked_names() =~= linked_after_all(
                    old(self).linked_names(),
                    all.subrange(0, i as int),
                    old(self).roster_map(),
                ),
                self.public_names() =~= public_after_all(
                    old(self).public_names(),
                    all.subrange(0, i as int),
                ),
                self.edges() == edges_after_all(
                    old(self).edges(),
                    all.subrange(0, i as int),
                    old(self).roster_map(),
                ),
            decreases outcomes@.len(),
        {
            let outcome = outcomes.remove(0);
            proof {
                assert(outcome == all[i as int]);
                assert(outcomes@ =~= all.subrange(i + 1, all.len() as int));
                assert(all.subrange(0, i + 1).drop_last() =~= all.subrange(0, i as int));
                assert(all.subrange(0, i + 1).last() == all[i as int]);
            }
            self.fold(outcome);
            i += 1;
        }
        proof {
            assert(all.subrange(0, all.len() as int) =~= all);
        }
    }

    /// Derives the final node list, once every outcome is folded: one node
    /// per linked name the roster knows, in link order, with its user count
    /// and whether its moderation list is public. Linked names the roster
    /// does not know are skipped.
    pub fn derive_nodes(&self) -> (nodes: Vec<GraphNode>)
        ensures
            self.wf() ==> nodes@ == nodes_of(
                self.linked_seq(),
                self.roster_map(),
                self.public_names(),
            ),
    {
        let mut nodes: Vec<GraphNode> = Vec::new();
        let mut i: usize = 0;
        while i < self.linked.len()
            invariant
                i <= self.linked@.len(),
                self.wf() ==> nodes@ == nodes_of(
                    self.linked@.subrange(0, i as int),
                    self.roster@,
                    seq_names(self.public_list@),
                ),
            decreases self.linked@.len() - i,
        {
            let name = &self.linked[i];
            match self.roster.lookup(name) {
                Some(users) => {
                    let is_pub = contains_name(&self.public_list, name);
                    nodes.push(GraphNode { id: name.clone(), users, public_moderation: is_pub });
                },
                None => {},
            }
            proof {
                assert(self.linked@.subrange(0, i + 1).drop_last() =~= self.linked@.subrange(
                    0,
                    i as int,
                ));
                assert(self.linked@.subrange(0, i + 1).last() == self.linked@[i as int]);
            }
            i += 1;
        }
        proof {
            assert(self.linked@.subrange(0, self.linked@.len() as int) =~= self.linked@);
        }
        nodes
    }

    /// Freezes the accumulator into the final report: the derived nodes,
    /// the edges in completion order, and the given timestamp.
    pub fn into_graph(self, last_updated: String) -> (g: GraphData)
        ensures
            self.wf() ==> g.nodes@ == nodes_of(
                self.linked_seq(),
                self.roster_map(),
                self.public_names(),
            ),
            g.links@ == self.edges(),
            g.last_updated == last_updated,
    {
        let nodes = self.derive_nodes();
        GraphData { last_updated, nodes, links: self.edges }
    }
}

/// Whether a name list holds `name`.
fn contains_name(v: &Vec<String>, name: &String) -> (r: bool)
    ensures
        r == seq_names(v@).contains(name@),
{
    let mut i: usize = 0;
    while i < v.len()
        invariant
            i <= v@.len(),
            forall|j: int| 0 <= j < i ==> #[trigger] v@[j]@ != name@,
        decreases v@.len() - i,
    {
        if v[i] == *name {
            proof {
                assert(v@[i as int]@ == name@);
            }
            return true;
        }
        i += 1;
    }
    false
}

/// Adds `name` to a name list unless it is already there.
fn insert_name(v: &mut Vec<String>, name: &String)
    ensures
        seq_names(final(v)@) =~= seq_names(old(v)@).insert(name@),
        distinct_names(old(v)@) ==> distinct_names(final(v)@),
        seq_names(old(v)@).contains(name@) ==> final(v)@ == old(v)@,
        !seq_names(old(v)@).contains(name@) ==> final(v)@ == old(v)@.push(*name),
{
    if !contains_name(v, name) {
        v.push(name.clone());
        proof {
            assert(v@ == old(v)@.push(*name));
            assert forall|n: Seq<char>| seq_names(v@).contains(n) implies seq_names(
                old(v)@,
            ).insert(name@).contains(n) by {
                let w = choose|w: int| 0 <= w < v@.len() && #[trigger] v@[w]@ == n;
                if w < old(v)@.len() {
                    assert(old(v)@[w]@ == n);
                }
            }
            assert forall|n: Seq<char>| seq_names(old(v)@).insert(name@).contains(n) implies
                seq_names(v@).contains(n) by {
                if n == name@ {
                    assert(v@[old(v)@.len() as int]@ == n);
                } else {
                    let w = choose|w: int| 0 <= w < old(v)@.len() && #[trigger] old(v)@[w]@ == n;
                    assert(v@[w]@ == n);
                }
            }
        }
    } else {
        proof {
            assert(seq_names(v@) =~= seq_names(old(v)@).insert(name@));
        }
    }
}

/// Publicly-listed names are always a subset of the linked names: a name
/// only enters the public set in the same fold step that links it.
pub proof fn lemma_public_subset_of_linked(acc: &Accumulator)
    requires
        acc.wf(),
    ensures
        acc.public_names().subset_of(acc.linked_names()),
{
}

/// No accumulated edge targets a domain outside the roster.
pub proof fn lemma_edge_targets_known(acc: &Accumulator)
    requires
        acc.wf(),
    ensures
        forall|i: int|
            0 <= i < acc.edges().len() ==> acc.roster_map().dom().contains(
                #[trigger] acc.edges()[i].target@,
            ),
{
}

/// The derived node set is exactly the linked names the roster knows — no
/// extras, no omissions — and every node carries its roster user count and
/// its public-list membership.
pub proof fn lemma_nodes_exact(
    linked: Seq<String>,
    roster: Map<Seq<char>, i32>,
    public: Set<Seq<char>>,
)
    ensures
        forall|n: Seq<char>|
            #![trigger node_ids(nodes_of(linked, roster, public)).contains(n)]
            node_ids(nodes_of(linked, roster, public)).contains(n) <==> seq_names(linked).contains(
                n,
            ) && roster.dom().contains(n),
        forall|k: int|
            0 <= k < nodes_of(linked, roster, public).len() ==> {
                let nd = #[trigger] nodes_of(linked, roster, public)[k];
                roster.dom().contains(nd.id@) && nd.users == roster[nd.id@] && nd.public_moderation
                    == public.contains(nd.id@)
            },
    decreases linked.len(),
{
    if linked.len() > 0 {
        lemma_nodes_exact(linked.drop_last(), roster, public);
        let prev = nodes_of(linked.drop_last(), roster, public);
        let whole = nodes_of(linked, roster, public);
        assert forall|n: Seq<char>|
            node_ids(whole).contains(n) implies seq_names(linked).contains(n)
            && roster.dom().contains(n) by {
            let w = choose|w: int| 0 <= w < whole.len() && #[trigger] whole[w].id@ == n;
            if w < prev.len() {
                assert(node_ids(prev).contains(n)) by {
                    assert(prev[w].id@ == n);
                }
                let x = choose|x: int|
                    0 <= x < linked.drop_last().len() && #[trigger] linked.drop_last()[x]@ == n;
                assert(linked[x]@ == n);
            } else {
                assert(whole[w] == whole.last());
                assert(linked[linked.len() - 1]@ == n);
            }
        }
        assert forall|n: Seq<char>|
            seq_names(linked).contains(n) && roster.dom().contains(n) implies node_ids(
            whole,
        ).contains(n) by {
            let w = choose|w: int| 0 <= w < linked.len() && #[trigger] linked[w]@ == n;
            if w < linked.len() - 1 {
                assert(linked.drop_last()[w]@ == n);
                assert(seq_names(linked.drop_last()).contains(n));
                assert(node_ids(prev).contains(n));
                let x = choose|x: int| 0 <= x < prev.len() && #[trigger] prev[x].id@ == n;
                assert(whole[x].id@ == n);
            } else {
                assert(whole[whole.len() - 1].id@ == n);
            }
        }
    }
}

/// Every edge an outcome contributes carries that outcome's own name as its
/// source and a roster member as its target: folding outcomes of roster
/// members keeps both endpoints of every edge inside the roster.
pub proof fn lemma_edges_of_shape(
    source: String,
    entries: Seq<Moderation>,
    roster: Map<Seq<char>, i32>,
)
    ensures
        forall|k: int|
            0 <= k < edges_of(source, entries, roster).len() ==> {
                let e = #[trigger] edges_of(source, entries, roster)[k];
                e.source == source && roster.dom().contains(e.target@)
            },
    decreases entries.len(),
{
    if entries.len() > 0 {
        lemma_edges_of_shape(source, entries.drop_last(), roster);
    }
}

/// With each linked name held once, each yields at most one node: the
/// derived node ids are pairwise distinct.
pub proof fn lemma_nodes_distinct(
    linked: Seq<String>,
    roster: Map<Seq<char>, i32>,
    public: Set<Seq<char>>,
)
    requires
        distinct_names(linked),
    ensures
        forall|k1: int, k2: int|
            #![trigger nodes_of(linked, roster, public)[k1], nodes_of(linked, roster, public)[k2]]
            0 <= k1 < k2 < nodes_of(linked, roster, public).len() ==> nodes_of(
                linked,
                roster,
                public,
            )[k1].id@ != nodes_of(linked, roster, public)[k2].id@,
    decreases linked.len(),
{
    if linked.len() > 0 {
        let shorter = linked.drop_last();
        assert(distinct_names(shorter)) by {
            assert forall|i: int, j: int|
                #![trigger shorter[i], shorter[j]]
                0 <= i < j < shorter.len() implies shorter[i]@ != shorter[j]@ by {
                assert(linked[i]@ != linked[j]@);
            }
        }
        lemma_nodes_distinct(shorter, roster, public);
        lemma_nodes_exact(shorter, roster, public);
        let prev = nodes_of(shorter, roster, public);
        let whole = nodes_of(linked, roster, public);
        assert forall|k1: int, k2: int|
            #![trigger whole[k1], whole[k2]]
            0 <= k1 < k2 < whole.len() implies whole[k1].id@ != whole[k2].id@ by {
            if k2 >= prev.len() {
                // the last node's name is fresh: it stands nowhere in `shorter`
                assert(whole[k2].id@ == linked.last()@);
                assert(prev[k1].id@ == whole[k1].id@);
                assert(node_ids(prev).contains(prev[k1].id@));
                let w = choose|w: int| 0 <= w < shorter.len() && #[trigger] shorter[w]@ == prev[k1].id@;
                assert(linked[w]@ == prev[k1].id@);
                assert(linked[w]@ != linked.last()@);
            }
        }
    }
}

/// Folding the same outcome a second time — a duplicate delivery — adds no
/// new linked or public name, but appends the outcome's edges once more:
/// duplicate deliveries duplicate edges, which is the designed behaviour,
/// not a repair.
pub proof fn lemma_fold_duplicate(
    linked: Set<Seq<char>>,
    public: Set<Seq<char>>,
    edges: Seq<GraphLink>,
    o: FetchOutcome,
    roster: Map<Seq<char>, i32>,
)
    ensures
        linked_after(linked_after(linked, o, roster), o, roster) =~= linked_after(
            linked,
            o,
            roster,
        ),
        public_after(public_after(public, o), o) =~= public_after(public, o),
        edges_after(edges_after(edges, o, roster), o, roster) == edges_after(edges, o, roster)
            + edges_of(o.source, o.entries@, roster),
{
    assert(edges_after(edges_after(edges, o, roster), o, roster) =~= edges_after(edges, o, roster)
        + edges_of(o.source, o.entries@, roster));
}

} // verus!
