use lore_auth::commands::{grant_command, user_command, user_command_with, GrantCommand, UserCommand};
use lore_auth::db::Database;
use lore_auth::settings::{
    non_empty, prepare, prepare_with, url_host, validate_serve_args, ServeArgs,
};

const RESOURCE: &str = "urc-0123456789abcdef0123456789abcdef";

fn args() -> ServeArgs {
    ServeArgs {
        public_base_url: "https://lore.example.test:8443/auth".into(),
        issuer: "https://lore.example.test".into(),
        audience: None,
        token_ttl_seconds: 60,
        login_ttl_seconds: 60,
        lore_grpc_url: None,
        bootstrap_username: Some("root".into()),
        bootstrap_password: Some("long enough password".into()),
    }
}

#[test]
fn empty_image_environment_values_are_treated_as_unset() {
    assert_eq!(non_empty(None), None);
    assert_eq!(non_empty(Some(String::new())), None);
    assert_eq!(non_empty(Some("   ".to_string())), None);
    assert_eq!(
        non_empty(Some("http://lore-server:41337".to_string())),
        Some("http://lore-server:41337".to_string())
    );
}

#[test]
fn audience_host_is_derived_from_the_authentication_url() {
    assert_eq!(
        url_host("https://lore.yxbro.com:12235/login").unwrap(),
        "lore.yxbro.com"
    );
    assert_eq!(url_host("https://[::1]:10443").unwrap(), "::1");
}

#[test]
fn hosts_of_odd_urls() {
    assert_eq!(url_host("lore.yxbro.com").unwrap_err(), "URL must contain a scheme");
    assert_eq!(url_host("https://").unwrap_err(), "URL must contain a host");
    assert_eq!(url_host("https:///login").unwrap_err(), "URL must contain a host");
    assert_eq!(url_host("https://:443").unwrap_err(), "URL must contain a host");
    assert_eq!(url_host("https://[]:443").unwrap_err(), "URL must contain a host");
    assert_eq!(url_host("a://b://c").unwrap(), "b");
    assert_eq!(url_host("https://[::1").unwrap(), "::1");
    assert_eq!(url_host("https://user@host").unwrap(), "user@host");
}

#[test]
fn blank_settings_are_dropped() {
    let mut a = args();
    a.audience = Some(" ".into());
    a.lore_grpc_url = Some(String::new());
    a.bootstrap_username = Some("\t".into());
    a.bootstrap_password = Some("x".into());
    let a = a.normalized();
    assert_eq!(a.audience, None);
    assert_eq!(a.lore_grpc_url, None);
    assert_eq!(a.bootstrap_username, None);
    assert_eq!(a.bootstrap_password, Some("x".to_string()));
    assert_eq!(a.issuer, "https://lore.example.test");
}

#[test]
fn each_refused_setting() {
    assert!(validate_serve_args(&args()).is_ok());
    let mut a = args();
    a.public_base_url = "ftp://lore.example.test".into();
    assert_eq!(
        validate_serve_args(&a).unwrap_err(),
        "public base URL must start with http:// or https://"
    );
    let mut a = args();
    a.issuer = "  ".into();
    assert_eq!(validate_serve_args(&a).unwrap_err(), "issuer must not be empty");
    let mut a = args();
    a.public_base_url = "http://".into();
    assert_eq!(validate_serve_args(&a).unwrap_err(), "URL must contain a host");
    let mut a = args();
    a.lore_grpc_url = Some("lore:41337".into());
    assert_eq!(
        validate_serve_args(&a).unwrap_err(),
        "Lore gRPC URL must start with http:// or https://"
    );
    a.lore_grpc_url = Some("http://lore:41337".into());
    assert!(validate_serve_args(&a).is_ok());
    let short = "token and login TTLs must be at least 60 seconds";
    a.token_ttl_seconds = 59;
    assert_eq!(validate_serve_args(&a).unwrap_err(), short);
    a.token_ttl_seconds = 60;
    a.login_ttl_seconds = 59;
    assert_eq!(validate_serve_args(&a).unwrap_err(), short);
}

#[test]
fn a_home_configuration_is_accepted() {
    let a = ServeArgs {
        public_base_url: "https://auth.example.com:10443".into(),
        issuer: "https://auth.example.com:10443".into(),
        audience: Some("lore-service".into()),
        token_ttl_seconds: 3600,
        login_ttl_seconds: 300,
        lore_grpc_url: Some("http://192.168.1.10:41337".into()),
        bootstrap_username: Some("admin".into()),
        bootstrap_password: None,
    };
    assert!(validate_serve_args(&a).is_ok());
}

#[test]
fn the_audience_can_be_set() {
    let mut a = args();
    a.audience = Some("elsewhere".into());
    assert_eq!(prepare(&mut Database::initialize(), &a).unwrap(), "elsewhere");
    a.audience = None;
    assert_eq!(prepare(&mut Database::initialize(), &a).unwrap(), "lore-service");
}

#[test]
fn the_administrator_is_prepared() {
    let mut db = Database::initialize();
    assert_eq!(
        prepare_with(&mut db, &args(), "c2FsdHNhbHQ", "id-1".into(), 5).unwrap(),
        "lore-service"
    );
    let root = db.find_user_by_id("id-1").unwrap();
    assert_eq!(root.username, "root");
    assert!(root.is_admin);
    assert_eq!(db.permissions_for("id-1", "urc-*").unwrap(), vec!["*"]);

    let mut a = args();
    a.bootstrap_username = None;
    assert_eq!(
        prepare(&mut Database::initialize(), &a).unwrap_err(),
        "LORE_AUTH_BOOTSTRAP_USERNAME must be set"
    );
    a.issuer = String::new();
    assert_eq!(
        prepare(&mut Database::initialize(), &a).unwrap_err(),
        "issuer must not be empty"
    );
}

#[test]
fn commands_on_users() {
    let mut db = Database::initialize();
    let add = |username: &str, display_name: Option<&str>, admin: bool| UserCommand::Add {
        username: username.into(),
        display_name: display_name.map(|s| s.to_string()),
        password: "long enough password".into(),
        admin,
    };
    let p = user_command_with(&mut db, add("zoe", None, false), "c2FsdHNhbHQ", "id-1".into(), 5);
    assert!(p.result.is_ok());
    assert_eq!(p.lines, vec!["created zoe (id-1)"]);
    assert_eq!(db.find_user_by_id("id-1").unwrap().display_name, "zoe");
    assert!(db.grants.is_empty());

    let p = user_command_with(
        &mut db,
        add("Adam", Some("Adam A."), true),
        "c2FsdHNhbHQ",
        "id-2".into(),
        5,
    );
    assert!(p.result.is_ok());
    assert_eq!(db.permissions_for("id-2", RESOURCE).unwrap(), vec!["*"]);

    let p = user_command(&mut db, add("ZOE", None, true));
    assert!(p.lines.is_empty());
    assert_eq!(
        p.result.unwrap_err().message,
        "creating user (the username may already exist)"
    );

    assert!(user_command(&mut db, UserCommand::Disable { username: "zoe".into() }).result.is_ok());
    let p = user_command(&mut db, UserCommand::List);
    assert_eq!(
        p.lines,
        vec![
            "Adam\tid-2\tadmin=true\tdisabled=false",
            "zoe\tid-1\tadmin=false\tdisabled=true",
        ]
    );
    assert!(user_command(&mut db, UserCommand::Enable { username: "zoe".into() }).result.is_ok());
    let p = user_command(
        &mut db,
        UserCommand::Password { username: "zoe".into(), password: "another password".into() },
    );
    assert!(p.result.is_ok());
    assert!(db.authenticate("zoe", "another password").unwrap().is_some());
    let p = user_command(&mut db, UserCommand::Enable { username: "nobody".into() });
    assert_eq!(p.result.unwrap_err().message, "user not found: nobody");
}

#[test]
fn commands_on_grants() {
    let mut db = Database::initialize();
    db.create_user("zoe", "Zoe", "long enough password", false).unwrap();
    let save = |resource: &str, permissions: &[&str]| GrantCommand::Save {
        username: "zoe".into(),
        resource: resource.into(),
        permissions: permissions.iter().map(|s| s.to_string()).collect(),
    };
    let p = grant_command(&mut db, save(RESOURCE, &["write", "read"]));
    assert!(p.result.is_ok());
    assert_eq!(p.lines, vec!["grant updated"]);
    let list = || GrantCommand::List { username: "ZOE".into() };
    assert_eq!(
        grant_command(&mut db, list()).lines,
        vec![format!("{RESOURCE}\tread,write")]
    );
    grant_command(&mut db, save("urc-*", &["admin"]));
    assert_eq!(
        grant_command(&mut db, list()).lines,
        vec![format!("{RESOURCE}\tread,write"), "urc-*\tadmin".to_string()]
    );
    let p = grant_command(&mut db, save("x", &["admin"]));
    assert!(p.lines.is_empty());
    assert!(p.result.is_err());
    let p = grant_command(&mut db, GrantCommand::List { username: "nobody".into() });
    assert_eq!(p.result.unwrap_err().message, "user not found: nobody");
    let p = grant_command(
        &mut db,
        GrantCommand::Revoke { username: "zoe".into(), resource: RESOURCE.into() },
    );
    assert!(p.result.is_ok());
    assert!(p.lines.is_empty());
    assert_eq!(grant_command(&mut db, list()).lines, vec!["urc-*\tadmin"]);
}
