use build_graph::accumulator::Accumulator;
use build_graph::fetch::{directory_instances, moderation_outcome, DirectoryStatus, ModerationResponse};
use build_graph::model::{GraphNode, Instance, Moderation};
use build_graph::roster::Roster;

fn instance(name: &str, users: &str) -> Instance {
    Instance { name: String::from(name), users: String::from(users) }
}

fn entry(domain: &str, severity: &str, comment: Option<&str>) -> Moderation {
    Moderation {
        domain: String::from(domain),
        severity: String::from(severity),
        comment: comment.map(String::from),
    }
}

fn node<'a>(nodes: &'a [GraphNode], id: &str) -> Option<&'a GraphNode> {
    nodes.iter().find(|n| n.id == id)
}

#[test]
fn malformed_user_count_resolves_to_zero() {
    let roster = Roster::from_instances(&vec![instance("a.example", "10"), instance(
        "b.example",
        "bad",
    )]);
    assert_eq!(roster.lookup(&String::from("a.example")), Some(10));
    assert_eq!(roster.lookup(&String::from("b.example")), Some(0));
    assert_eq!(roster.lookup(&String::from("c.example")), None);
    assert!(roster.contains_name(&String::from("a.example")));
    assert!(!roster.contains_name(&String::from("c.example")));
}

#[test]
fn one_entry_links_source_and_target() {
    let roster = Roster::from_instances(&vec![instance("a.example", "10"), instance(
        "b.example",
        "5",
    )]);
    let mut acc = Accumulator::new(roster);

    // a.example publishes one entry naming b.example; b.example publishes none
    let a = moderation_outcome(
        String::from("a.example"),
        ModerationResponse::Http {
            status: 200,
            body: Some(vec![entry("b.example", "suspend", None)]),
        },
    );
    let b = moderation_outcome(
        String::from("b.example"),
        ModerationResponse::Http { status: 200, body: Some(vec![]) },
    );
    acc.fold(a);
    acc.fold(b);

    let graph = acc.into_graph(String::from("now"));
    assert_eq!(graph.last_updated, "now");

    let mut ids: Vec<String> = graph.nodes.iter().map(|n| n.id.clone()).collect();
    ids.sort();
    assert_eq!(ids, vec![String::from("a.example"), String::from("b.example")]);

    let a_node = node(&graph.nodes, "a.example").unwrap();
    assert_eq!(a_node.users, 10);
    assert!(a_node.public_moderation);
    let b_node = node(&graph.nodes, "b.example").unwrap();
    assert_eq!(b_node.users, 5);
    assert!(!b_node.public_moderation);

    assert_eq!(graph.links.len(), 1);
    assert_eq!(graph.links[0].source, "a.example");
    assert_eq!(graph.links[0].target, "b.example");
    assert_eq!(graph.links[0].severity, "suspend");
    assert_eq!(graph.links[0].comment, None);
}

#[test]
fn unknown_target_yields_no_edge_and_no_node() {
    let roster = Roster::from_instances(&vec![instance("c.example", "3")]);
    let mut acc = Accumulator::new(roster);
    let c = moderation_outcome(
        String::from("c.example"),
        ModerationResponse::Http {
            status: 200,
            body: Some(vec![entry("unknown.example", "suspend", None)]),
        },
    );
    acc.fold(c);
    let graph = acc.into_graph(String::from("t"));
    assert!(graph.links.is_empty());
    assert!(node(&graph.nodes, "unknown.example").is_none());
    // c.example published an entry, so it is linked and becomes a node
    assert_eq!(graph.nodes.len(), 1);
    assert_eq!(graph.nodes[0].id, "c.example");
}

#[test]
fn timed_out_instance_contributes_nothing() {
    let roster = Roster::from_instances(&vec![instance("a.example", "1"), instance(
        "d.example",
        "2",
    )]);
    let mut acc = Accumulator::new(roster);
    let d = moderation_outcome(String::from("d.example"), ModerationResponse::TransportFailure);
    assert_eq!(d.source, "d.example");
    assert!(!d.is_public);
    assert!(d.entries.is_empty());
    acc.fold(d);
    let graph = acc.into_graph(String::from("t"));
    assert!(graph.nodes.is_empty());
    assert!(graph.links.is_empty());
}

#[test]
fn timed_out_instance_still_a_node_when_linked_to() {
    let roster = Roster::from_instances(&vec![instance("a.example", "1"), instance(
        "d.example",
        "2",
    )]);
    let mut acc = Accumulator::new(roster);
    acc.fold(moderation_outcome(String::from("d.example"), ModerationResponse::TransportFailure));
    acc.fold(moderation_outcome(
        String::from("a.example"),
        ModerationResponse::Http {
            status: 200,
            body: Some(vec![entry("d.example", "silence", Some("spam"))]),
        },
    ));
    let graph = acc.into_graph(String::from("t"));
    let d_node = node(&graph.nodes, "d.example").unwrap();
    assert_eq!(d_node.users, 2);
    assert!(!d_node.public_moderation);
    assert_eq!(graph.links.len(), 1);
    assert_eq!(graph.links[0].comment.as_deref(), Some("spam"));
}

#[test]
fn duplicate_fold_duplicates_edges_but_not_nodes() {
    let roster = Roster::from_instances(&vec![instance("a.example", "1"), instance(
        "b.example",
        "2",
    )]);
    let mut acc = Accumulator::new(roster);
    let make = || {
        moderation_outcome(
            String::from("a.example"),
            ModerationResponse::Http {
                status: 200,
                body: Some(vec![entry("b.example", "suspend", None)]),
            },
        )
    };
    acc.fold(make());
    acc.fold(make());
    let graph = acc.into_graph(String::from("t"));
    // edges are appended as delivered: a duplicate delivery duplicates the edge
    assert_eq!(graph.links.len(), 2);
    assert_eq!(graph.links[0].target, "b.example");
    assert_eq!(graph.links[1].target, "b.example");
    // the node sets do not grow
    assert_eq!(graph.nodes.len(), 2);
}

#[test]
fn every_public_node_is_linked_and_every_edge_target_known() {
    let roster = Roster::from_instances(&vec![
        instance("a.example", "1"),
        instance("b.example", "2"),
        instance("c.example", "3"),
    ]);
    let roster_names = ["a.example", "b.example", "c.example"];
    let mut acc = Accumulator::new(roster);
    acc.fold(moderation_outcome(
        String::from("a.example"),
        ModerationResponse::Http {
            status: 200,
            body: Some(vec![
                entry("b.example", "suspend", None),
                entry("nowhere.example", "suspend", None),
                entry("c.example", "silence", None),
            ]),
        },
    ));
    acc.fold(moderation_outcome(
        String::from("b.example"),
        ModerationResponse::Http { status: 404, body: None },
    ));
    let graph = acc.into_graph(String::from("t"));
    let linked: Vec<&str> = graph.nodes.iter().map(|n| n.id.as_str()).collect();
    for n in &graph.nodes {
        if n.public_moderation {
            assert!(linked.contains(&n.id.as_str()));
        }
    }
    for l in &graph.links {
        assert!(roster_names.contains(&l.target.as_str()));
        assert!(linked.contains(&l.target.as_str()));
    }
    assert_eq!(graph.links.len(), 2);
}

#[test]
fn fold_all_matches_folding_on_arrival() {
    let make_roster = || {
        Roster::from_instances(&vec![instance("a.example", "10"), instance("b.example", "5")])
    };
    let make_outcomes = || {
        vec![
            moderation_outcome(
                String::from("a.example"),
                ModerationResponse::Http {
                    status: 200,
                    body: Some(vec![entry("b.example", "suspend", None)]),
                },
            ),
            moderation_outcome(
                String::from("b.example"),
                ModerationResponse::Http { status: 200, body: Some(vec![]) },
            ),
        ]
    };

    let mut one_by_one = Accumulator::new(make_roster());
    for outcome in make_outcomes() {
        one_by_one.fold(outcome);
    }
    let expected = one_by_one.into_graph(String::from("t"));

    let mut all_at_once = Accumulator::new(make_roster());
    all_at_once.fold_all(make_outcomes());
    let graph = all_at_once.into_graph(String::from("t"));

    assert_eq!(graph.nodes.len(), expected.nodes.len());
    for (got, want) in graph.nodes.iter().zip(expected.nodes.iter()) {
        assert_eq!(got.id, want.id);
        assert_eq!(got.users, want.users);
        assert_eq!(got.public_moderation, want.public_moderation);
    }
    assert_eq!(graph.links.len(), expected.links.len());
    for (got, want) in graph.links.iter().zip(expected.links.iter()) {
        assert_eq!(got.source, want.source);
        assert_eq!(got.target, want.target);
        assert_eq!(got.severity, want.severity);
        assert_eq!(got.comment, want.comment);
    }
}

#[test]
fn empty_roster_yields_empty_graph() {
    let roster = Roster::from_instances(&vec![]);
    let acc = Accumulator::new(roster);
    let graph = acc.into_graph(String::from("t"));
    assert!(graph.nodes.is_empty());
    assert!(graph.links.is_empty());
}

#[test]
fn moderation_classification() {
    let ok = moderation_outcome(
        String::from("x"),
        ModerationResponse::Http { status: 200, body: Some(vec![entry("y", "suspend", None)]) },
    );
    assert!(ok.is_public);
    assert_eq!(ok.entries.len(), 1);

    let unparseable = moderation_outcome(
        String::from("x"),
        ModerationResponse::Http { status: 200, body: None },
    );
    assert!(!unparseable.is_public);
    assert!(unparseable.entries.is_empty());

    let absent = moderation_outcome(
        String::from("x"),
        ModerationResponse::Http { status: 404, body: None },
    );
    assert!(!absent.is_public);
    assert!(absent.entries.is_empty());

    let server_error = moderation_outcome(
        String::from("x"),
        ModerationResponse::Http { status: 500, body: None },
    );
    assert!(!server_error.is_public);
    assert!(server_error.entries.is_empty());
}

#[test]
fn directory_classification() {
    let (list, status) = directory_instances(200, Some(vec![instance("a.example", "1")]));
    assert_eq!(status, DirectoryStatus::Listed);
    assert_eq!(list.len(), 1);
    assert_eq!(list[0].name, "a.example");

    let (list, status) = directory_instances(200, None);
    assert_eq!(status, DirectoryStatus::DirectoryError);
    assert!(list.is_empty());

    let (list, status) = directory_instances(401, None);
    assert_eq!(status, DirectoryStatus::CredentialsRejected);
    assert!(list.is_empty());

    let (list, status) = directory_instances(503, None);
    assert_eq!(status, DirectoryStatus::DirectoryError);
    assert!(list.is_empty());
}
