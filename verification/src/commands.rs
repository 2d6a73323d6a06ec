//! The commands for users and grants on the command line.

use vstd::prelude::*;
use vstd::string::*;

use crate::clock;
use crate::db;
use crate::db::{by_name, first_user, Database, DatabaseView, DbError, UserView};
use crate::db_laws;
use crate::ids;
use crate::password;
use crate::text;
use crate::text::Text;

verus! {

#[derive(Debug)]
pub enum UserCommand {
    Add { username: String, display_name: Option<String>, password: String, admin: bool },
    List,
    Disable { username: String },
    Enable { username: String },
    Password { username: String, password: String },
}

pub enum UserCommandView {
    Add { username: Text, display_name: Option<Text>, password: Text, admin: bool },
    List,
    Disable { username: Text },
    Enable { username: Text },
    Password { username: Text, password: Text },
}

impl View for UserCommand {
    type V = UserCommandView;

    open spec fn view(&self) -> UserCommandView {
        match *self {
            UserCommand::Add { username, display_name, password, admin } => UserCommandView::Add {
                username: username@,
                display_name: display_name.deep_view(),
                password: password@,
                admin,
            },
            UserCommand::List => UserCommandView::List,
            UserCommand::Disable { username } => UserCommandView::Disable { username: username@ },
            UserCommand::Enable { username } => UserCommandView::Enable { username: username@ },
            UserCommand::Password { username, password } => UserCommandView::Password {
                username: username@,
                password: password@,
            },
        }
    }
}

#[derive(Debug)]
pub enum GrantCommand {
    Save { username: String, resource: String, permissions: Vec<String> },
    List { username: String },
    Revoke { username: String, resource: String },
}

pub enum GrantCommandView {
    Save { username: Text, resource: Text, permissions: Seq<Text> },
    List { username: Text },
    Revoke { username: Text, resource: Text },
}

impl View for GrantCommand {
    type V = GrantCommandView;

    open spec fn view(&self) -> GrantCommandView {
        match *self {
            GrantCommand::Save { username, resource, permissions } => GrantCommandView::Save {
                username: username@,
                resource: resource@,
                permissions: permissions.deep_view(),
            },
            GrantCommand::List { username } => GrantCommandView::List { username: username@ },
            GrantCommand::Revoke { username, resource } => GrantCommandView::Revoke {
                username: username@,
                resource: resource@,
            },
        }
    }
}

/// What a command printed, and how it ended.
#[derive(Debug)]
pub struct Printed {
    pub lines: Vec<String>,
    pub result: Result<(), DbError>,
}

#[verifier::ext_equal]
pub struct PrintedView {
    pub lines: Seq<Text>,
    pub result: Result<(), Text>,
}

impl View for Printed {
    type V = PrintedView;

    open spec fn view(&self) -> PrintedView {
        PrintedView { lines: self.lines.deep_view(), result: db::outcome(self.result) }
    }
}

fn printed(line: String) -> (p: Printed)
    ensures
        p@ == (PrintedView { lines: seq![line@], result: Ok(()) }),
{
    let mut lines: Vec<String> = Vec::new();
    lines.push(line);
    assert(lines.deep_view() =~= seq![line@]);
    Printed { lines, result: Ok(()) }
}

fn silent(result: Result<(), DbError>) -> (p: Printed)
    ensures
        p@ == (PrintedView { lines: Seq::empty(), result: db::outcome(result) }),
{
    let lines: Vec<String> = Vec::new();
    assert(lines.deep_view() =~= Seq::<Text>::empty());
    Printed { lines, result }
}

pub open spec fn yes_or_no(b: bool) -> Text {
    if b {
        "true"@
    } else {
        "false"@
    }
}

fn say(b: bool) -> (r: &'static str)
    ensures
        r@ == yes_or_no(b),
{
    if b {
        "true"
    } else {
        "false"
    }
}

/// The line for a user in a list.
pub open spec fn user_line(user: UserView) -> Text {
    user.username + "\t"@ + user.id + "\tadmin="@ + yes_or_no(user.is_admin) + "\tdisabled="@
        + yes_or_no(user.disabled)
}

pub open spec fn silently(outcome: (DatabaseView, Result<(), Text>)) -> (DatabaseView, PrintedView) {
    (outcome.0, PrintedView { lines: Seq::empty(), result: outcome.1 })
}

/// A command on users: the tables afterwards, and what it prints. A new administrator
/// gets the full permission on all resources.
pub open spec fn user_command_run(
    tables: DatabaseView,
    command: UserCommandView,
    salt: Text,
    id: Text,
    now: i64,
) -> (DatabaseView, PrintedView) {
    match command {
        UserCommandView::Add { username, display_name, password, admin } => {
            let shown = match display_name {
                Some(s) => s,
                None => username,
            };
            match db::created(tables, username, shown, password, admin, salt, id, now) {
                (next, Err(e)) => silently((next, Err(e))),
                (next, Ok(user)) => {
                    let line = "created "@ + user.username + " ("@ + user.id + ")"@;
                    let done = PrintedView { lines: seq![line], result: Ok(()) };
                    if admin {
                        match db::with_grant(next, username, db::every_resource(), seq!["*"@]) {
                            (last, Ok(_)) => (last, done),
                            (last, Err(e)) => silently((last, Err(e))),
                        }
                    } else {
                        (next, done)
                    }
                },
            }
        },
        UserCommandView::List => (
            tables,
            PrintedView {
                lines: db::listed_users(tables).map_values(|u: UserView| user_line(u)),
                result: Ok(()),
            },
        ),
        UserCommandView::Disable { username } => silently(
            db::with_disabled(tables, username, true),
        ),
        UserCommandView::Enable { username } => silently(
            db::with_disabled(tables, username, false),
        ),
        UserCommandView::Password { username, password } => silently(
            db::with_password(tables, username, password, salt),
        ),
    }
}

/// Runs a command on users with the given salt, identifier and time.
pub fn user_command_with(
    tables: &mut Database,
    command: UserCommand,
    salt: &str,
    id: String,
    now: i64,
) -> (p: Printed)
    ensures
        (final(tables)@, p@) == user_command_run(old(tables)@, command@, salt@, id@, now),
{
    match command {
        UserCommand::Add { username, display_name, password, admin } => {
            let shown = match display_name {
                Some(s) => s,
                None => username.clone(),
            };
            let user = match tables.create_user_with(
                username.as_str(),
                shown.as_str(),
                password.as_str(),
                admin,
                salt,
                id,
                now,
            ) {
                Ok(user) => user,
                Err(e) => {
                    return silent(Err(e));
                },
            };
            if admin {
                let mut all: Vec<String> = Vec::new();
                all.push("*".to_owned());
                assert(db::texts(all@) =~= seq!["*"@]);
                match tables.set_grant(username.as_str(), "urc-*", all.as_slice()) {
                    Ok(_) => {},
                    Err(e) => {
                        return silent(Err(e));
                    },
                }
            }
            let mut line = "created ".to_owned();
            line.append(user.username.as_str());
            line.append(" (");
            line.append(user.id.as_str());
            line.append(")");
            printed(line)
        },
        UserCommand::List => {
            let users = tables.list_users();
            let ghost wanted = users.deep_view().map_values(|u: UserView| user_line(u));
            let mut lines: Vec<String> = Vec::new();
            let mut i: usize = 0;
            assert(lines.deep_view() =~= wanted.take(0));
            while i < users.len()
                invariant
                    i <= users@.len(),
                    wanted == users.deep_view().map_values(|u: UserView| user_line(u)),
                    lines.deep_view() == wanted.take(i as int),
                decreases users@.len() - i,
            {
                let user = &users[i];
                let ghost before = lines.deep_view();
                let mut line = user.username.clone();
                line.append("\t");
                line.append(user.id.as_str());
                line.append("\tadmin=");
                line.append(say(user.is_admin));
                line.append("\tdisabled=");
                line.append(say(user.disabled));
                lines.push(line);
                assert(lines.deep_view() =~= before.push(user_line(user@)));
                assert(wanted.take(i + 1) =~= wanted.take(i as int).push(wanted[i as int]));
                i = i + 1;
            }
            assert(wanted.take(i as int) =~= wanted);
            Printed { lines, result: Ok(()) }
        },
        UserCommand::Disable { username } => {
            let r = tables.set_disabled(username.as_str(), true);
            silent(r)
        },
        UserCommand::Enable { username } => {
            let r = tables.set_disabled(username.as_str(), false);
            silent(r)
        },
        UserCommand::Password { username, password } => {
            let r = tables.set_password_with(username.as_str(), password.as_str(), salt);
            silent(r)
        },
    }
}

/// Runs a command on users.
pub fn user_command(tables: &mut Database, command: UserCommand) -> (p: Printed)
    ensures
        exists|salt: Text, id: Text, now: i64|
            ids::is_uuid_text(id) && password::serves(salt) && 0 <= now <= clock::CLOCK_LIMIT && (
            final(tables)@, p@) == #[trigger] user_command_run(
                old(tables)@,
                command@,
                salt,
                id,
                now,
            ),
{
    let salt = password::fresh_salt();
    let id = ids::fresh_id();
    let now = clock::now();
    user_command_with(tables, command, salt.as_str(), id, now)
}

/// The line for a grant in a list.
pub open spec fn grant_line(resource_id: Text, permissions: Seq<Text>) -> Text {
    resource_id + "\t"@ + text::joined(permissions, ","@)
}

fn write_grant(resource_id: &str, permissions: &Vec<String>) -> (r: String)
    ensures
        r@ == grant_line(resource_id@, permissions.deep_view()),
{
    let mut line = resource_id.to_owned();
    line.append("\t");
    line.append(text::join(permissions, ",").as_str());
    line
}

/// What is printed of the grants of a user: those on single resources, and then the one
/// on all.
pub open spec fn grants_printed(tables: DatabaseView, username: Text) -> PrintedView {
    match first_user(tables.users, by_name(username)) {
        None => PrintedView { lines: Seq::empty(), result: Err(db::user_not_found(username)) },
        Some(user) => match db::listed_grants(tables, user.id, Seq::empty()) {
            Err(e) => PrintedView { lines: Seq::empty(), result: Err(e) },
            Ok(grants) => {
                let lines = grants.map_values(
                    |g: db::GrantView| grant_line(g.resource_id, g.permissions),
                );
                match db::permitted(tables, user.id, db::every_resource()) {
                    Err(e) => PrintedView { lines, result: Err(e) },
                    Ok(wildcard) => PrintedView {
                        lines: if wildcard.len() == 0 {
                            lines
                        } else {
                            lines.push(grant_line(db::every_resource(), wildcard))
                        },
                        result: Ok(()),
                    },
                }
            },
        },
    }
}

pub open spec fn grant_command_run(tables: DatabaseView, command: GrantCommandView) -> (
    DatabaseView,
    PrintedView,
) {
    match command {
        GrantCommandView::Save { username, resource, permissions } => match db::with_grant(
            tables,
            username,
            resource,
            permissions,
        ) {
            (next, Ok(_)) => (
                next,
                PrintedView { lines: seq!["grant updated"@], result: Ok(()) },
            ),
            (next, Err(e)) => silently((next, Err(e))),
        },
        GrantCommandView::List { username } => (tables, grants_printed(tables, username)),
        GrantCommandView::Revoke { username, resource } => silently(
            db::without_grant(tables, username, resource),
        ),
    }
}

fn print_grants(tables: &Database, username: &str) -> (p: Printed)
    ensures
        p@ == grants_printed(tables@, username@),
{
    let user = match tables.find_user_by_username(username) {
        Some(user) => user,
        None => {
            let mut message = "user not found: ".to_owned();
            message.append(username);
            return silent(Err(DbError { message }));
        },
    };
    proof {
        reveal_strlit("");
        assert(""@ =~= Seq::<char>::empty());
    }
    let grants = match tables.list_grants(user.id.as_str(), "") {
        Ok(grants) => grants,
        Err(e) => {
            return silent(Err(e));
        },
    };
    let ghost wanted = grants.deep_view().map_values(
        |g: db::GrantView| grant_line(g.resource_id, g.permissions),
    );
    let mut lines: Vec<String> = Vec::new();
    let mut i: usize = 0;
    assert(lines.deep_view() =~= wanted.take(0));
    while i < grants.len()
        invariant
            i <= grants@.len(),
            wanted == grants.deep_view().map_values(
                |g: db::GrantView| grant_line(g.resource_id, g.permissions),
            ),
            lines.deep_view() == wanted.take(i as int),
        decreases grants@.len() - i,
    {
        let ghost before = lines.deep_view();
        lines.push(write_grant(grants[i].resource_id.as_str(), &grants[i].permissions));
        assert(lines.deep_view() =~= before.push(wanted[i as int]));
        assert(wanted.take(i + 1) =~= wanted.take(i as int).push(wanted[i as int]));
        i = i + 1;
    }
    assert(wanted.take(i as int) =~= wanted);
    match tables.permissions_for(user.id.as_str(), "urc-*") {
        Ok(wildcard) => {
            assert(wildcard.deep_view().len() == wildcard@.len());
            if wildcard.len() > 0 {
                let ghost before = lines.deep_view();
                let line = write_grant("urc-*", &wildcard);
                lines.push(line);
                assert(lines.deep_view() =~= before.push(line@));
            }
            Printed { lines, result: Ok(()) }
        },
        Err(e) => Printed { lines, result: Err(e) },
    }
}

/// Runs a command on grants.
pub fn grant_command(tables: &mut Database, command: GrantCommand) -> (p: Printed)
    ensures
        (final(tables)@, p@) == grant_command_run(old(tables)@, command@),
{
    match command {
        GrantCommand::Save { username, resource, permissions } => {
            assert(db::texts(permissions@) =~= permissions.deep_view());
            match tables.set_grant(username.as_str(), resource.as_str(), permissions.as_slice()) {
                Ok(_) => printed("grant updated".to_owned()),
                Err(e) => silent(Err(e)),
            }
        },
        GrantCommand::List { username } => print_grants(tables, username.as_str()),
        GrantCommand::Revoke { username, resource } => {
            let r = tables.revoke_grant(username.as_str(), resource.as_str());
            silent(r)
        },
    }
}

/// No command breaks the constraints of the tables.
pub proof fn commands_keep_the_tables_well_formed(
    tables: DatabaseView,
    on_users: UserCommandView,
    on_grants: GrantCommandView,
    salt: Text,
    id: Text,
    now: i64,
)
    requires
        tables.well_formed(),
    ensures
        user_command_run(tables, on_users, salt, id, now).0.well_formed(),
        tables.referenced() ==> user_command_run(tables, on_users, salt, id, now).0.referenced(),
        grant_command_run(tables, on_grants).0.well_formed(),
        tables.referenced() ==> grant_command_run(tables, on_grants).0.referenced(),
{
    match on_users {
        UserCommandView::Add { username, display_name, password, admin } => {
            let shown = match display_name {
                Some(s) => s,
                None => username,
            };
            let next = db::created(tables, username, shown, password, admin, salt, id, now).0;
            db_laws::creating_a_user_keeps_the_tables_well_formed(
                tables,
                username,
                shown,
                password,
                admin,
                salt,
                id,
                now,
            );
            db_laws::granting_keeps_the_tables_well_formed(
                next,
                username,
                db::every_resource(),
                seq!["*"@],
            );
        },
        UserCommandView::List => {},
        UserCommandView::Disable { username } => {
            db_laws::disabling_a_user_keeps_the_tables_well_formed(tables, username, true);
        },
        UserCommandView::Enable { username } => {
            db_laws::disabling_a_user_keeps_the_tables_well_formed(tables, username, false);
        },
        UserCommandView::Password { username, password } => {
            db_laws::setting_a_password_keeps_the_tables_well_formed(
                tables,
                username,
                password,
                salt,
            );
        },
    }
    match on_grants {
        GrantCommandView::Save { username, resource, permissions } => {
            db_laws::granting_keeps_the_tables_well_formed(
                tables,
                username,
                resource,
                permissions,
            );
        },
        GrantCommandView::List { .. } => {},
        GrantCommandView::Revoke { username, resource } => {
            db_laws::revoking_keeps_the_tables_well_formed(tables, username, resource);
        },
    }
}

} // verus!
