use lore_auth::db::{
    normalize_permissions, validate_resource, validate_username, Database, GrantRow,
    RepositoryRow, User, UserRow,
};

const RESOURCE: &str = "urc-0123456789abcdef0123456789abcdef";
const OTHER: &str = "urc-ffffffffffffffffffffffffffffffff";

fn list(items: &[&str]) -> Vec<String> {
    items.iter().map(|s| s.to_string()).collect()
}

fn user_row(id: &str, username: &str) -> UserRow {
    UserRow {
        user: User {
            id: id.to_string(),
            username: username.to_string(),
            display_name: username.to_uppercase(),
            password_hash: "none".to_string(),
            disabled: false,
            is_admin: false,
        },
        created_at: 1,
    }
}

fn repository_row(resource_id: &str, created_by: &str) -> RepositoryRow {
    RepositoryRow {
        resource_id: resource_id.to_string(),
        name: "name".to_string(),
        created_by: created_by.to_string(),
        created_at: 2,
    }
}

fn grant_row(user_id: &str, resource_id: &str, permissions: &str) -> GrantRow {
    GrantRow {
        user_id: user_id.to_string(),
        resource_id: resource_id.to_string(),
        permissions: permissions.to_string(),
    }
}

#[test]
fn users_and_grants_round_trip() {
    let mut db = Database::initialize();
    let user = db
        .create_user("alice", "Alice", "correct horse battery staple", false)
        .unwrap();
    assert!(db.authenticate("alice", "wrong password").unwrap().is_none());
    assert_eq!(
        db.authenticate("alice", "correct horse battery staple")
            .unwrap()
            .unwrap()
            .id,
        user.id
    );

    let resource = "urc-0123456789abcdef0123456789abcdef";
    db.set_grant("alice", resource, &["read".into(), "write".into()])
        .unwrap();
    assert_eq!(
        db.permissions_for(&user.id, resource).unwrap(),
        vec!["read", "write"]
    );
}

#[test]
fn bootstrap_admin_is_restored_without_resetting_password() {
    let mut db = Database::initialize();
    db.create_user("root", "Root", "original long password", false)
        .unwrap();
    db.set_disabled("root", true).unwrap();

    db.ensure_bootstrap_admin(Some("root"), None).unwrap();

    let root = db.find_user_by_username("root").unwrap();
    assert!(root.is_admin);
    assert!(!root.disabled);
    assert!(db
        .authenticate("root", "original long password")
        .unwrap()
        .is_some());
    assert_eq!(db.permissions_for(&root.id, "urc-*").unwrap(), vec!["*"]);
    assert_eq!(db.list_all_user_grants().unwrap().len(), 1);
}

#[test]
fn deleting_user_removes_its_grants() {
    let mut db = Database::initialize();
    let root = db
        .create_user("root", "Root", "root administrator password", true)
        .unwrap();
    let user = db
        .create_user("alice", "Alice", "correct horse battery staple", false)
        .unwrap();
    let resource = "urc-0123456789abcdef0123456789abcdef";
    db.set_grant("alice", resource, &["read".into()]).unwrap();
    db.create_repository(&user, resource, "Alice's repository")
        .unwrap();

    db.delete_user("alice", "root").unwrap();

    assert!(db.find_user_by_username("alice").is_none());
    assert!(db.list_grants(&user.id, "").unwrap().is_empty());
    db.delete_repository(resource).unwrap();
    assert!(db.find_user_by_id(&root.id).is_some());
}

#[test]
fn names_are_checked() {
    assert!(validate_username("abc").is_ok());
    assert!(validate_username("  a.b-c_9 \t").is_ok());
    assert!(validate_username(&"x".repeat(64)).is_ok());
    let short = "username must contain 3 to 64 characters";
    assert_eq!(validate_username("ab").unwrap_err().message, short);
    assert_eq!(validate_username(" ab ").unwrap_err().message, short);
    assert_eq!(validate_username(&"x".repeat(65)).unwrap_err().message, short);
    let odd = "username may contain only ASCII letters, digits, '.', '-' and '_'";
    assert_eq!(validate_username("a b").unwrap_err().message, odd);
    // Two characters, but four bytes.
    assert_eq!(validate_username("éé").unwrap_err().message, odd);
}

#[test]
fn resources_are_checked() {
    assert!(validate_resource("urc-*").is_ok());
    assert!(validate_resource(RESOURCE).is_ok());
    assert!(validate_resource("urc-0123456789ABCDEF0123456789abcdef").is_ok());
    let refusal = "resource must be 'urc-*' or 'urc-<32 hex characters>'";
    for bad in [
        "",
        "urc-",
        "0123456789abcdef0123456789abcdef",
        "urc-0123456789abcdef0123456789abcde",
        "urc-0123456789abcdef0123456789abcdeg",
        "urc-0123456789abcdef0123456789abcdef0",
        "URC-0123456789abcdef0123456789abcdef",
    ] {
        assert_eq!(validate_resource(bad).unwrap_err().message, refusal);
    }
}

#[test]
fn permissions_are_normalized() {
    assert_eq!(
        normalize_permissions(&list(&["write, read", "", " read ,,admin"])),
        vec!["admin", "read", "write"]
    );
    assert!(normalize_permissions(&list(&[" , ,"])).is_empty());
    assert_eq!(normalize_permissions(&list(&["b,B,é,a"])), vec!["B", "a", "b", "é"]);
}

#[test]
fn each_refusal_of_a_new_user() {
    let mut db = Database::initialize();
    assert_eq!(
        db.create_user("a", "A", "0123456789", false).unwrap_err().message,
        "username must contain 3 to 64 characters"
    );
    assert_eq!(
        db.create_user("alice", " \n", "0123456789", false).unwrap_err().message,
        "display name must not be empty"
    );
    assert_eq!(
        db.create_user("alice", "A", "012345678", false).unwrap_err().message,
        "password must contain at least 10 characters"
    );
    // Ten characters, of two bytes each, are enough; nine are not.
    assert!(db.create_user("bob", "B", "éééééééééé", false).is_ok());
    assert!(db.create_user("carol", "C", "ééééééééé", false).is_err());
    let alice = db.create_user(" alice ", "  Alice A. ", "0123456789", true).unwrap();
    assert_eq!(alice.username, "alice");
    assert_eq!(alice.display_name, "Alice A.");
    assert!(alice.is_admin);
    assert!(!alice.disabled);
    assert_eq!(
        db.create_user("ALICE", "A", "0123456789", false).unwrap_err().message,
        "creating user (the username may already exist)"
    );
    assert_eq!(db.users.len(), 2);
    assert_ne!(alice.id, db.find_user_by_username("bob").unwrap().id);
}

#[test]
fn hashes_are_argon2id_strings_with_their_salt() {
    let mut db = Database::initialize();
    let a = db
        .create_user_with("alice", "A", "0123456789", false, "c2FsdHNhbHQ", "id-1".into(), 7)
        .unwrap();
    assert!(a.password_hash.starts_with("$argon2id$v=19$m=19456,t=2,p=1$c2FsdHNhbHQ$"));
    assert_eq!(db.users[0].created_at, 7);
    assert_eq!(db.users[0].user.id, "id-1");
    // The same password and salt give the same hash, another salt gives another.
    let b = db
        .create_user_with("bob", "B", "0123456789", false, "c2FsdHNhbHQ", "id-2".into(), 8)
        .unwrap();
    assert_eq!(a.password_hash, b.password_hash);
    let c = db
        .create_user_with("carol", "C", "0123456789", false, "c2FsdHNhbHQx", "id-3".into(), 9)
        .unwrap();
    assert_ne!(a.password_hash, c.password_hash);
    assert_eq!(
        db.create_user_with("dave", "D", "0123456789", false, "c2FsdHNhbHQ", "id-3".into(), 9)
            .unwrap_err()
            .message,
        "creating user (the username may already exist)"
    );
    assert!(db
        .create_user_with("erin", "E", "0123456789", false, "$$$", "id-5".into(), 9)
        .unwrap_err()
        .message
        .starts_with("hashing password: "));
}

#[test]
fn users_with_the_same_password_differ() {
    let mut db = Database::initialize();
    let a = db.create_user("alice", "A", "the same password", false).unwrap();
    let b = db.create_user("bob", "B", "the same password", false).unwrap();
    for user in [&a, &b] {
        assert!(user.password_hash.starts_with("$argon2id$"));
        assert_eq!(
            db.authenticate(&user.username, "the same password").unwrap().unwrap().id,
            user.id
        );
        assert!(!user.password_hash.contains("the same password"));
    }
    assert_ne!(a.password_hash, b.password_hash);
    assert_ne!(a.id, b.id);
    assert_eq!(db.users[0].user.password_hash, a.password_hash);
    db.set_password_with("bob", "the same password", "c2FsdHNhbHQ").unwrap();
    assert!(db.users[1]
        .user
        .password_hash
        .starts_with("$argon2id$v=19$m=19456,t=2,p=1$c2FsdHNhbHQ$"));
}

#[test]
fn passwords_open_accounts() {
    let mut db = Database::initialize();
    db.create_user("alice", "A", "first password", false).unwrap();
    assert!(db.authenticate("ALICE", "first password").unwrap().is_some());
    assert!(db.authenticate("alice", "First password").unwrap().is_none());
    assert!(db.authenticate("nobody", "first password").unwrap().is_none());
    db.set_password("Alice", "second password").unwrap();
    assert!(db.authenticate("alice", "first password").unwrap().is_none());
    assert!(db.authenticate("alice", "second password").unwrap().is_some());
    db.set_disabled("alice", true).unwrap();
    assert!(db.authenticate("alice", "second password").unwrap().is_none());
    db.set_disabled("alice", false).unwrap();
    assert!(db.authenticate("alice", "second password").unwrap().is_some());
    assert_eq!(
        db.set_password("alice", "short").unwrap_err().message,
        "password must contain at least 10 characters"
    );
    assert_eq!(
        db.set_password("nobody", "second password").unwrap_err().message,
        "user not found: nobody"
    );
    assert_eq!(
        db.set_disabled("nobody", true).unwrap_err().message,
        "user not found: nobody"
    );
}

#[test]
fn a_broken_hash_is_an_error() {
    let db = Database::open(vec![user_row("1", "alice")], vec![], vec![]).unwrap();
    assert!(db
        .authenticate("alice", "whatever")
        .unwrap_err()
        .message
        .starts_with("stored password hash is invalid: "));
}

#[test]
fn hashes_with_too_many_lanes_open_nothing() {
    let mut db = Database::initialize();
    db.create_user("alice", "A", "0123456789", false).unwrap();
    let good = db.users[0].user.password_hash.clone();
    let open = |db: &mut Database, params: &str| {
        db.users[0].user.password_hash = good.replace("m=19456,t=2,p=1", params);
        db.authenticate("alice", "0123456789").unwrap().is_some()
    };
    assert!(open(&mut db, "m=19456,t=2,p=1"));
    // The default is one lane, and of two values the latter counts.
    assert!(open(&mut db, "m=19456,t=2"));
    assert!(open(&mut db, "p=4294967295,m=19456,t=2,p=1"));
    assert!(!open(&mut db, "p=1,m=19456,t=2,p=4294967295"));
    for lanes in ["2", "99999999", "536870912", "4294967295", "99999999999", "0", "01", "x", ""] {
        assert!(!open(&mut db, &format!("m=19456,t=2,p={lanes}")), "{lanes}");
    }
    db.users[0].user.password_hash = good.replace("p=1", "p=1=1");
    assert!(db
        .authenticate("alice", "0123456789")
        .unwrap_err()
        .message
        .starts_with("stored password hash is invalid: "));
}

#[test]
fn bootstrap_makes_or_refuses_the_administrator() {
    let mut db = Database::initialize();
    let unset = "LORE_AUTH_BOOTSTRAP_USERNAME must be set";
    assert_eq!(db.ensure_bootstrap_admin(None, Some("x")).unwrap_err().message, unset);
    assert_eq!(db.ensure_bootstrap_admin(Some("  "), Some("x")).unwrap_err().message, unset);
    assert_eq!(
        db.ensure_bootstrap_admin(Some("root"), None).unwrap_err().message,
        "bootstrap administrator does not exist; set LORE_AUTH_BOOTSTRAP_PASSWORD"
    );
    assert!(db.ensure_bootstrap_admin(Some("root"), Some("short")).is_err());
    assert!(db.users.is_empty());
    db.ensure_bootstrap_admin(Some(" root "), Some("long enough password")).unwrap();
    let root = db.find_user_by_username("root").unwrap();
    assert_eq!(root.display_name, "root");
    assert!(root.is_admin);
    assert_eq!(db.permissions_for(&root.id, RESOURCE).unwrap(), vec!["*"]);
    db.ensure_bootstrap_admin(Some("ROOT"), Some("another password")).unwrap();
    assert_eq!(db.users.len(), 1);
    assert!(db.authenticate("root", "long enough password").unwrap().is_some());
}

#[test]
fn users_are_listed_by_name_whatever_the_case() {
    let db = Database::open(
        vec![
            user_row("1", "bob"),
            user_row("2", "Carol"),
            user_row("3", "ALICE"),
            user_row("4", "b_b"),
            user_row("5", "B.b"),
        ],
        vec![],
        vec![],
    )
    .unwrap();
    let names: Vec<String> = db.list_users().into_iter().map(|u| u.username).collect();
    assert_eq!(names, vec!["ALICE", "B.b", "b_b", "bob", "Carol"]);
}

#[test]
fn deleting_users() {
    let mut db = Database::open(
        vec![user_row("1", "alice"), user_row("2", "root"), user_row("3", "bob")],
        vec![repository_row(RESOURCE, "1"), repository_row(OTHER, "3")],
        vec![
            grant_row("1", RESOURCE, "[\"read\"]"),
            grant_row("3", RESOURCE, "[\"write\"]"),
        ],
    )
    .unwrap();
    assert_eq!(
        db.delete_user("nobody", "root").unwrap_err().message,
        "user not found: nobody"
    );
    assert_eq!(
        db.delete_user("alice", "nobody").unwrap_err().message,
        "repository successor not found: nobody"
    );
    assert_eq!(
        db.delete_user("alice", "ALICE").unwrap_err().message,
        "a user cannot be their own repository successor"
    );
    assert_eq!(db.users.len(), 3);
    db.delete_user("Alice", "ROOT").unwrap();
    assert!(db.find_user_by_id("1").is_none());
    assert_eq!(db.repositories[0].created_by, "2");
    assert_eq!(db.repositories[1].created_by, "3");
    assert_eq!(db.grants.len(), 1);
    assert_eq!(db.permissions_for("3", RESOURCE).unwrap(), vec!["write"]);
}

#[test]
fn grants_are_replaced_and_revoked() {
    let mut db = Database::open(
        vec![user_row("1", "alice"), user_row("2", "bob")],
        vec![],
        vec![],
    )
    .unwrap();
    assert_eq!(
        db.set_grant("alice", "nonsense", &list(&["read"])).unwrap_err().message,
        "resource must be 'urc-*' or 'urc-<32 hex characters>'"
    );
    assert_eq!(
        db.set_grant("alice", RESOURCE, &[]).unwrap_err().message,
        "at least one permission is required"
    );
    assert_eq!(
        db.set_grant("carol", RESOURCE, &list(&["read"])).unwrap_err().message,
        "user not found: carol"
    );
    db.set_grant("alice", RESOURCE, &list(&["write,read"])).unwrap();
    assert_eq!(db.grants[0].permissions, "[\"read\",\"write\"]");
    db.set_grant("ALICE", RESOURCE, &list(&["admin"])).unwrap();
    assert_eq!(db.grants.len(), 1);
    assert_eq!(db.permissions_for("1", RESOURCE).unwrap(), vec!["admin"]);
    db.set_grant("alice", "urc-*", &list(&["read", "admin"])).unwrap();
    assert_eq!(db.permissions_for("1", RESOURCE).unwrap(), vec!["admin", "read"]);
    assert_eq!(db.permissions_for("1", OTHER).unwrap(), vec!["admin", "read"]);
    assert!(db.permissions_for("2", RESOURCE).unwrap().is_empty());
    db.revoke_grant("alice", RESOURCE).unwrap();
    db.revoke_grant("alice", OTHER).unwrap();
    assert_eq!(db.grants.len(), 1);
    assert_eq!(
        db.revoke_grant("carol", RESOURCE).unwrap_err().message,
        "user not found: carol"
    );
    // A list that names nothing is stored as an empty list.
    db.set_grant("bob", RESOURCE, &list(&[" , "])).unwrap();
    assert!(db.permissions_for("2", RESOURCE).unwrap().is_empty());
    assert_eq!(db.grants[1].permissions, "[]");
}

#[test]
fn grants_are_listed_by_resource() {
    let db = Database::open(
        vec![user_row("1", "zoe"), user_row("2", "Adam")],
        vec![],
        vec![
            grant_row("1", OTHER, "[\"read\"]"),
            grant_row("1", "urc-*", "[\"*\"]"),
            grant_row("1", RESOURCE, "[\"b\",\"a\"]"),
            grant_row("2", OTHER, "[]"),
        ],
    )
    .unwrap();
    let all = db.list_grants("1", "").unwrap();
    assert_eq!(all.len(), 2);
    assert_eq!(all[0].resource_id, RESOURCE);
    assert_eq!(all[0].permissions, vec!["b", "a"]);
    assert_eq!(all[1].resource_id, OTHER);
    assert_eq!(db.list_grants("1", "urc-f").unwrap().len(), 1);
    // Filters are patterns, and match letters in either case.
    assert_eq!(db.list_grants("1", "URC-_1").unwrap()[0].resource_id, RESOURCE);
    assert_eq!(db.list_grants("1", "%cdef0").unwrap()[0].resource_id, RESOURCE);
    assert!(db.list_grants("1", "xurc").unwrap().is_empty());

    let named = db.list_all_user_grants().unwrap();
    let shown: Vec<(String, String)> = named
        .into_iter()
        .map(|g| (g.username, g.resource_id))
        .collect();
    assert_eq!(
        shown,
        vec![
            ("Adam".to_string(), OTHER.to_string()),
            ("zoe".to_string(), "urc-*".to_string()),
            ("zoe".to_string(), RESOURCE.to_string()),
            ("zoe".to_string(), OTHER.to_string()),
        ]
    );
}

#[test]
fn unreadable_permissions_are_an_error() {
    let db = Database::open(
        vec![user_row("1", "alice")],
        vec![],
        vec![grant_row("1", RESOURCE, "no list")],
    )
    .unwrap();
    let expected = serde_json::from_str::<Vec<String>>("no list").unwrap_err().to_string();
    assert_eq!(db.permissions_for("1", RESOURCE).unwrap_err().message, expected);
    let listed = format!("Conversion error from type Text at index: 7, {expected}");
    assert_eq!(db.list_grants("1", "").unwrap_err().message, listed);
    assert_eq!(db.list_all_user_grants().unwrap_err().message, listed);
    assert!(db.permissions_for("1", OTHER).unwrap().is_empty());
}

#[test]
fn repositories_belong_to_their_creator() {
    let mut db = Database::open(vec![user_row("1", "alice")], vec![], vec![]).unwrap();
    let alice = db.find_user_by_id("1").unwrap();
    db.create_repository_at(&alice, RESOURCE, "One", 77).unwrap();
    assert_eq!(db.repositories[0].name, "One");
    assert_eq!(db.repositories[0].created_by, "1");
    assert_eq!(db.repositories[0].created_at, 77);
    assert_eq!(
        db.permissions_for("1", RESOURCE).unwrap(),
        vec!["admin", "migrate", "obliterate", "owner", "read", "write"]
    );
    assert_eq!(
        db.create_repository(&alice, RESOURCE, "Two").unwrap_err().message,
        "repository resource already exists"
    );
    assert!(db.create_repository(&alice, "nonsense", "Two").is_err());
    let mut stranger = db.find_user_by_id("1").unwrap();
    stranger.id = "9".to_string();
    assert_eq!(
        db.create_repository(&stranger, OTHER, "Two").unwrap_err().message,
        "repository resource already exists"
    );
    db.create_repository(&alice, OTHER, "Two").unwrap();
    assert_eq!(db.list_repositories("").unwrap(), vec![RESOURCE, OTHER]);
    assert_eq!(db.list_repositories("urc-f").unwrap(), vec![OTHER]);
    db.delete_repository(RESOURCE).unwrap();
    assert!(db.permissions_for("1", RESOURCE).unwrap().is_empty());
    assert_eq!(db.grants.len(), 1);
    assert_eq!(
        db.delete_repository(RESOURCE).unwrap_err().message,
        "repository resource not found"
    );
}

#[test]
fn tables_with_broken_constraints_are_not_opened() {
    let broken = "the stored tables break their constraints";
    let cases: Vec<(Vec<UserRow>, Vec<RepositoryRow>, Vec<GrantRow>)> = vec![
        (vec![user_row("1", "a"), user_row("1", "b")], vec![], vec![]),
        (vec![user_row("1", "a"), user_row("2", "A")], vec![], vec![]),
        (
            vec![user_row("1", "a")],
            vec![repository_row(RESOURCE, "1"), repository_row(RESOURCE, "1")],
            vec![],
        ),
        (
            vec![user_row("1", "a")],
            vec![],
            vec![grant_row("1", RESOURCE, "[]"), grant_row("1", RESOURCE, "[]")],
        ),
    ];
    for (users, repositories, grants) in cases {
        assert_eq!(
            Database::open(users, repositories, grants).unwrap_err().message,
            broken
        );
    }
    assert!(Database::open(vec![], vec![], vec![]).is_ok());
}

#[test]
fn references_to_nobody_do_no_harm() {
    let mut db = Database::open(
        vec![user_row("1", "alice")],
        vec![repository_row(RESOURCE, "9")],
        vec![grant_row("9", RESOURCE, "[\"read\"]"), grant_row("1", OTHER, "[\"read\"]")],
    )
    .unwrap();
    // As in a join, grants to nobody are not listed.
    let listed = db.list_all_user_grants().unwrap();
    assert_eq!(listed.len(), 1);
    assert_eq!(listed[0].resource_id, OTHER);
    assert_eq!(db.list_repositories("").unwrap(), vec![RESOURCE]);
    assert_eq!(db.permissions_for("9", RESOURCE).unwrap(), vec!["read"]);
    db.create_user("bob", "Bob", "long enough password", false).unwrap();
    db.delete_user("alice", "bob").unwrap();
    assert_eq!(db.repositories[0].created_by, "9");
    assert_eq!(db.grants.len(), 1);
    assert_eq!(db.grants[0].user_id, "9");
}

#[test]
fn overlong_filters_are_refused_as_in_sqlite() {
    let conn = rusqlite::Connection::open_in_memory().unwrap();
    conn.execute_batch(
        "CREATE TABLE repositories (resource_id TEXT PRIMARY KEY, name TEXT NOT NULL);
         CREATE TABLE grants (user_id TEXT NOT NULL, resource_id TEXT NOT NULL,
             permissions TEXT NOT NULL, PRIMARY KEY(user_id, resource_id));",
    )
    .unwrap();
    let repositories_in_sqlite = |filter: &str| -> Result<Vec<String>, String> {
        conn.prepare(
            "SELECT resource_id FROM repositories WHERE resource_id LIKE ?1 ORDER BY resource_id",
        )
        .unwrap()
        .query_map([format!("{filter}%")], |row| row.get(0))
        .unwrap()
        .collect::<Result<Vec<_>, _>>()
        .map_err(|e| e.to_string())
    };
    let grants_in_sqlite = |user_id: &str, filter: &str| -> Result<Vec<String>, String> {
        conn.prepare(
            "SELECT resource_id, permissions FROM grants WHERE user_id = ?1 AND resource_id LIKE ?2 AND resource_id != 'urc-*' ORDER BY resource_id",
        )
        .unwrap()
        .query_map([user_id.to_string(), format!("{filter}%")], |row| row.get(0))
        .unwrap()
        .collect::<Result<Vec<_>, _>>()
        .map_err(|e| e.to_string())
    };
    let compare = |db: &Database| {
        for filter in ["", "urc-", &"x".repeat(49_999), &"x".repeat(50_000), &"é".repeat(25_000)] {
            let listed = db.list_repositories(filter).map_err(|e| e.message);
            assert_eq!(listed, repositories_in_sqlite(filter));
            for user_id in ["1", "2", "3"] {
                let listed = db
                    .list_grants(user_id, filter)
                    .map(|list| list.into_iter().map(|g| g.resource_id).collect::<Vec<_>>())
                    .map_err(|e| e.message);
                assert_eq!(listed, grants_in_sqlite(user_id, filter));
            }
        }
    };
    // Where there is no row to try, there is nothing to refuse.
    compare(&Database::open(vec![user_row("1", "alice")], vec![], vec![]).unwrap());
    conn.execute("INSERT INTO repositories VALUES(?1, 'name')", [RESOURCE]).unwrap();
    conn.execute("INSERT INTO grants VALUES('1', ?1, '[]')", [RESOURCE]).unwrap();
    conn.execute("INSERT INTO grants VALUES('2', 'urc-*', '[]')", []).unwrap();
    let db = Database::open(
        vec![user_row("1", "alice"), user_row("2", "bob"), user_row("3", "carol")],
        vec![repository_row(RESOURCE, "1")],
        vec![grant_row("1", RESOURCE, "[]"), grant_row("2", "urc-*", "[]")],
    )
    .unwrap();
    compare(&db);
    assert_eq!(
        db.list_repositories(&"x".repeat(50_000)).unwrap_err().message,
        "LIKE or GLOB pattern too complex"
    );
}

#[test]
fn changes_keep_the_constraints() {
    let mut db = Database::initialize();
    db.ensure_bootstrap_admin(Some("root"), Some("long enough password")).unwrap();
    for name in ["alice", "bob", "carol"] {
        let user = db.create_user(name, name, "long enough password", false).unwrap();
        let id = format!("urc-{:032x}", db.repositories.len());
        db.create_repository(&user, &id, name).unwrap();
        db.set_grant("root", &id, &list(&["read"])).unwrap();
    }
    db.set_disabled("alice", true).unwrap();
    db.set_password("bob", "another password").unwrap();
    db.delete_user("alice", "root").unwrap();
    db.delete_repository(&format!("urc-{:032x}", 1)).unwrap();
    db.revoke_grant("root", &format!("urc-{:032x}", 2)).unwrap();
    assert_eq!(db.users.len(), 3);
    assert_eq!(db.repositories.len(), 2);
    assert_eq!(db.grants.len(), 3);
    assert!(Database::open(db.users, db.repositories, db.grants).is_ok());
}

#[test]
fn refused_changes_change_nothing() {
    let rows = || {
        (
            vec![user_row("1", "alice"), user_row("2", "bob")],
            vec![repository_row(RESOURCE, "1")],
            vec![grant_row("1", RESOURCE, "[\"read\"]")],
        )
    };
    let (users, repositories, grants) = rows();
    let mut db = Database::open(users, repositories, grants).unwrap();
    let alice = db.find_user_by_id("1").unwrap();
    assert!(db.create_user("ALICE", "A", "long enough password", true).is_err());
    assert!(db.set_password("alice", "short").is_err());
    assert!(db.set_disabled("nobody", true).is_err());
    assert!(db.delete_user("alice", "alice").is_err());
    assert!(db.set_grant("alice", "x", &list(&["read"])).is_err());
    assert!(db.revoke_grant("nobody", RESOURCE).is_err());
    assert!(db.create_repository(&alice, RESOURCE, "again").is_err());
    assert!(db.delete_repository(OTHER).is_err());
    assert!(db.ensure_bootstrap_admin(Some("root"), None).is_err());
    let (users, repositories, grants) = rows();
    assert_eq!(format!("{:?}", db.users), format!("{users:?}"));
    assert_eq!(format!("{:?}", db.repositories), format!("{repositories:?}"));
    assert_eq!(format!("{:?}", db.grants), format!("{grants:?}"));
}

#[test]
fn users_are_listed_as_in_sqlite() {
    let names = ["bob", "Carol", "ALICE", "b_b", "B.b", "bOa", "b-b", "Z9", "a0", "A_"];
    let conn = rusqlite::Connection::open_in_memory().unwrap();
    conn.execute_batch("CREATE TABLE users (username TEXT NOT NULL UNIQUE COLLATE NOCASE)")
        .unwrap();
    let mut rows = vec![];
    for (i, name) in names.iter().enumerate() {
        conn.execute("INSERT INTO users VALUES(?1)", [name]).unwrap();
        rows.push(user_row(&i.to_string(), name));
    }
    let mut statement = conn.prepare("SELECT username FROM users ORDER BY username").unwrap();
    let expected: Vec<String> = statement
        .query_map([], |row| row.get(0))
        .unwrap()
        .map(|name| name.unwrap())
        .collect();
    let db = Database::open(rows, vec![], vec![]).unwrap();
    let listed: Vec<String> = db.list_users().into_iter().map(|u| u.username).collect();
    assert_eq!(listed, expected);
}
