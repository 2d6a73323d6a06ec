use lore_auth::lore_admin::{
    bearer_header, decode_resource_id, encode_hex, find_repository, grpc_error_message,
    BranchItem, History, HistoryAction, HistoryEvent, LiveRepository, LoreAdminClient,
    RepositoryItem, RevisionDetails, RevisionItem,
};

fn item(name: &str, id: u8) -> RepositoryItem {
    RepositoryItem {
        id: vec![id; 16],
        name: name.into(),
        description: format!("about {name}"),
        default_branch_id: vec![id],
        default_branch_name: "main".into(),
        creator: "alice".into(),
        created: 100 + id as u64,
    }
}

fn live(resource_id: &str) -> LiveRepository {
    LiveRepository {
        resource_id: resource_id.into(),
        name: "n".into(),
        description: String::new(),
        default_branch_id: vec![],
        default_branch_name: String::new(),
        creator: String::new(),
        created: 0,
    }
}

#[test]
fn resource_id_round_trip() {
    let resource = "urc-0123456789abcdef0123456789abcdef";
    let decoded = decode_resource_id(resource).unwrap();
    assert_eq!(format!("urc-{}", encode_hex(&decoded)), resource);
}

#[test]
fn resource_ids_that_do_not_decode() {
    assert_eq!(decode_resource_id("0123").unwrap_err(), "仓库 ID 缺少 urc- 前缀");
    assert_eq!(
        decode_resource_id("urc-0123").unwrap_err(),
        "仓库 ID 必须包含 32 位十六进制字符"
    );
    assert_eq!(
        decode_resource_id("urc-g123456789abcdef0123456789abcdef").unwrap_err(),
        "仓库 ID 不是十六进制"
    );
    assert_eq!(decode_resource_id("urc-*").unwrap_err(), "仓库 ID 必须包含 32 位十六进制字符");
    // Capitals decode, and a sign in front of a digit counts as none.
    assert_eq!(
        decode_resource_id("urc-FF+1FFFFFFFFFFFFFFFFFFFFFFFFFFFF").unwrap()[..2],
        [0xff, 0x01]
    );
    assert!(decode_resource_id("urc--1FFFFFFFFFFFFFFFFFFFFFFFFFFFFFF").is_err());
    assert!(decode_resource_id("urc-+-FFFFFFFFFFFFFFFFFFFFFFFFFFFFFF").is_err());
}

#[test]
fn hexadecimal_digits() {
    assert_eq!(encode_hex(&[]), "");
    assert_eq!(encode_hex(&[0, 9, 10, 15, 16, 255]), "00090a0f10ff");
}

#[test]
fn repositories_are_listed_by_name() {
    let client = LoreAdminClient::new("http://lore:41337//");
    assert_eq!(client.endpoint, "http://lore:41337");
    let list = client.list_repositories(vec![
        Some(item("zeta", 1)),
        None,
        Some(item("Beta", 2)),
        Some(item("alpha", 3)),
        Some(item("alpha", 4)),
    ]);
    let names: Vec<(&str, u64)> = list.iter().map(|r| (r.name.as_str(), r.created)).collect();
    assert_eq!(names, vec![("Beta", 102), ("alpha", 103), ("alpha", 104), ("zeta", 101)]);
    assert_eq!(list[0].resource_id, "urc-02020202020202020202020202020202");
    assert_eq!(list[0].description, "about Beta");
    assert_eq!(list[0].default_branch_id, vec![2]);
    assert_eq!(list[0].default_branch_name, "main");
    assert_eq!(list[0].creator, "alice");
    assert_eq!(find_repository(&list, "urc-03030303030303030303030303030303"), Some(1));
    assert_eq!(find_repository(&list, "urc-05050505050505050505050505050505"), None);
}

#[test]
fn calls_name_the_repository() {
    let client = LoreAdminClient::new("http://lore");
    let id = "urc-0123456789abcdef0123456789abcdef";
    let call = client.delete_repository("token", id).unwrap();
    assert_eq!(call.authorization, "Bearer token");
    assert_eq!(call.repository_id[..3], [0x01, 0x23, 0x45]);
    assert_eq!(call.repository_id.len(), 16);
    let (call, history) = client.history("other", &live(id)).unwrap();
    assert_eq!(call.authorization, "Bearer other");
    assert!(history.entries.is_empty());
    assert!(client.delete_repository("token", "nonsense").is_err());
    assert!(client.history("token", &live("nonsense")).is_err());
    assert_eq!(bearer_header("x"), "Bearer x");
}

#[test]
fn errors_of_the_server_are_shown_with_their_code() {
    assert_eq!(
        grpc_error_message(Some(("Permission denied", "no")), "context"),
        "Permission denied：no"
    );
    assert_eq!(grpc_error_message(None, "context"), "context");
}

fn details(number: u64, timestamp: u64) -> Option<RevisionDetails> {
    Some(RevisionDetails {
        message: format!("m{number}"),
        timestamp,
        committed_by: "bob".into(),
        number,
    })
}

fn revision(number: u64) -> RevisionItem {
    RevisionItem { signature: vec![number as u8, 0xab], number }
}

fn branch(name: &str) -> HistoryEvent {
    HistoryEvent::Branch(Some(BranchItem { id: vec![7], name: name.into() }))
}

#[test]
fn histories_are_read_branch_by_branch() {
    let mut h = History::new();
    assert!(matches!(h.step(HistoryEvent::Branch(None)), HistoryAction::NextBranch));
    match h.step(branch("main")) {
        HistoryAction::ListRevisions(id) => assert_eq!(id, vec![7]),
        _ => panic!(),
    }
    match h.step(HistoryEvent::Revisions(vec![revision(1), revision(2)])) {
        HistoryAction::DescribeRevision(signature, number) => {
            assert_eq!(signature, vec![1, 0xab]);
            assert_eq!(number, 1);
        }
        _ => panic!(),
    }
    match h.step(HistoryEvent::Revision(details(11, 5))) {
        HistoryAction::DescribeRevision(_, number) => assert_eq!(number, 2),
        _ => panic!(),
    }
    assert!(matches!(h.step(HistoryEvent::Revision(None)), HistoryAction::NextBranch));
    assert!(matches!(h.step(branch("side")), HistoryAction::ListRevisions(_)));
    assert!(matches!(h.step(HistoryEvent::Revisions(vec![])), HistoryAction::NextBranch));
    assert!(matches!(h.step(branch("late")), HistoryAction::ListRevisions(_)));
    h.step(HistoryEvent::Revisions(vec![revision(3), revision(4)]));
    h.step(HistoryEvent::Revision(details(0, 9)));
    h.step(HistoryEvent::Revision(details(4, 5)));
    assert!(matches!(h.step(HistoryEvent::BranchesEnd), HistoryAction::Done));
    let shown: Vec<(String, u64, String, String, u64)> = h
        .finish()
        .into_iter()
        .map(|e| (e.branch_name, e.number, e.signature, e.message, e.timestamp))
        .collect();
    // The latest comes first; of the same time, what came first.
    let row = |b: &str, n: u64, s: &str, m: &str, t: u64| {
        (b.to_string(), n, s.to_string(), m.to_string(), t)
    };
    assert_eq!(
        shown,
        vec![
            row("late", 3, "03ab", "m0", 9),
            row("main", 11, "01ab", "m11", 5),
            row("late", 4, "04ab", "m4", 5),
            row("main", 2, "02ab", "", 0),
        ]
    );
}

#[test]
fn the_latest_fifty_revisions_are_shown() {
    let mut h = History::new();
    h.step(branch("main"));
    h.step(HistoryEvent::Revisions((0..60).map(revision).collect()));
    for i in 0..59 {
        assert!(matches!(
            h.step(HistoryEvent::Revision(details(i, 1))),
            HistoryAction::DescribeRevision(_, _)
        ));
    }
    assert!(matches!(
        h.step(HistoryEvent::Revision(details(59, 1))),
        HistoryAction::NextBranch
    ));
    h.step(branch("side"));
    h.step(HistoryEvent::Revisions(vec![revision(7), revision(8)]));
    h.step(HistoryEvent::Revision(details(7, 2)));
    h.step(HistoryEvent::Revision(details(8, 0)));
    assert!(matches!(h.step(HistoryEvent::BranchesEnd), HistoryAction::Done));
    let entries = h.finish();
    assert_eq!(entries.len(), 50);
    assert_eq!((entries[0].branch_name.as_str(), entries[0].timestamp), ("side", 2));
    assert_eq!((entries[1].branch_name.as_str(), entries[1].number), ("main", 0));
    assert_eq!((entries[49].number, entries[49].timestamp), (48, 1));
    assert_eq!(entries[0].committed_by, "bob");
}
