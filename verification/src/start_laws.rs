//! What comes of the settings and commands with which the service is started.

use vstd::prelude::*;

use crate::commands;
use crate::commands::{GrantCommandView, PrintedView, UserCommandView};
use crate::db;
use crate::db::{DatabaseView, UserView};
use crate::settings;
use crate::settings::ServeArgsView;
use crate::table_laws;
use crate::text;
use crate::text::Text;
use crate::text_laws;
use crate::text_laws::{is_blank, is_whole};

verus! {

// ---------------------------------------------------------------------------
// Settings
// ---------------------------------------------------------------------------

/// A text is trimmed to nothing if and only if it is blank.
proof fn lemma_blank(s: Text)
    ensures
        text::trimmed(s).len() == 0 <==> is_blank(s),
    decreases s.len(),
{
    let none = Seq::<char>::empty();
    if is_blank(s) {
        text_laws::trimming_takes_the_space_around(s, none, none);
        assert(s + none + none =~= s);
    } else {
        let k = choose|k: int| 0 <= k < s.len() && !text::is_white_space(#[trigger] s[k]);
        lemma_kept(s, k);
    }
}

/// A character that is no white space is not trimmed away.
proof fn lemma_kept(s: Text, k: int)
    requires
        0 <= k < s.len(),
        !text::is_white_space(s[k]),
    ensures
        text::trimmed(s).len() > 0,
    decreases s.len(),
{
    if text::is_white_space(s[0]) {
        assert(s.skip(1)[k - 1] == s[k]);
        lemma_kept(s.skip(1), k - 1);
    } else {
        lemma_kept_at_the_end(s);
    }
}

/// A text that does not begin with white space is not trimmed to nothing at its end.
proof fn lemma_kept_at_the_end(s: Text)
    requires
        s.len() > 0,
        !text::is_white_space(s[0]),
    ensures
        text::trimmed_end(s).len() > 0,
    decreases s.len(),
{
    if text::is_white_space(s.last()) {
        assert(s.drop_last()[0] == s[0]);
        lemma_kept_at_the_end(s.drop_last());
    }
}

/// A setting counts as it was given, unless it is blank or missing: then it is not set.
pub proof fn blank_settings_are_not_set(value: Text)
    ensures
        is_blank(value) ==> settings::set_value(Some(value)) is None,
        !is_blank(value) ==> settings::set_value(Some(value)) == Some(value),
        settings::set_value(None) is None,
{
    lemma_blank(value);
}

/// The host of a URL stands behind the scheme, and ends before a path, before a port, or
/// with the URL.
pub proof fn hosts_stand_behind_the_scheme(scheme: Text, host: Text, rest: Text)
    requires
        forall|j: int|
            0 <= j < scheme.len() ==> !#[trigger] text::stands_at(
                scheme + "://"@ + (host + rest),
                j,
                "://"@,
            ),
        is_whole(host, '/'),
        is_whole(host, ':'),
        host.len() > 0 ==> host[0] != '[',
        rest.len() == 0 || rest[0] == '/' || rest[0] == ':',
    ensures
        host.len() > 0 ==> settings::host_of(scheme + "://"@ + (host + rest)) == (Ok::<Text, Text>(
            host,
        )),
        host.len() == 0 ==> settings::host_of(scheme + "://"@ + (host + rest)) == (Err::<
            Text,
            Text,
        >("URL must contain a host"@)),
{
    reveal_strlit("[");
    let remainder = host + rest;
    text_laws::the_first_place_counts(scheme, "://"@, remainder);
    text_laws::joining_undoes_splitting(rest, '/');
    let path = text::pieces(rest, '/');
    let port = path[0];
    lemma_first_piece_of_both(host, rest, '/');
    let authority = host + port;
    assert(text::pieces(remainder, '/')[0] == authority);
    if rest.len() > 0 && rest[0] == '/' {
        text_laws::first_pieces_end_at_the_separator(Seq::empty(), '/', rest);
        assert(Seq::<char>::empty() + rest =~= rest);
        assert(port =~= Seq::<char>::empty());
    } else if rest.len() > 0 {
        lemma_beginning(rest, '/');
        assert(port.len() > 0 && port[0] == ':');
    } else {
        assert(rest =~= Seq::<char>::empty());
        assert(text::pieces(rest, '/') == seq![Seq::<char>::empty()]);
    }
    text_laws::first_pieces_end_at_the_separator(host, ':', port);
    assert(text::pieces(authority, ':')[0] == host);
    assert("["@[0] == '[');
    assert("["@.len() == 1);
    if "["@.is_prefix_of(authority) {
        assert(authority[0] == '[');
        if host.len() > 0 {
            assert(authority[0] == host[0]);
        } else {
            assert(authority[0] == port[0]);
        }
    }
}

/// The first piece of a text that does not begin with the separator begins as the text.
proof fn lemma_beginning(s: Text, separator: char)
    requires
        s.len() > 0,
        s[0] != separator,
    ensures
        text::pieces(s, separator)[0].len() > 0,
        text::pieces(s, separator)[0][0] == s[0],
    decreases s.len(),
{
    text::lemma_pieces_nonempty(s.drop_last(), separator);
    let before = text::pieces(s.drop_last(), separator);
    if s.len() == 1 {
        assert(s.drop_last() =~= Seq::<char>::empty());
        assert(before == seq![Seq::<char>::empty()]);
    } else {
        assert(s.drop_last()[0] == s[0]);
        lemma_beginning(s.drop_last(), separator);
    }
}

/// A text without the separator stands in front of the first piece of what follows.
proof fn lemma_first_piece_of_both(s: Text, rest: Text, separator: char)
    requires
        is_whole(s, separator),
    ensures
        text::pieces(rest, separator).len() > 0,
        text::pieces(s + rest, separator).len() == text::pieces(rest, separator).len(),
        text::pieces(s + rest, separator)[0] == s + text::pieces(rest, separator)[0],
        forall|i: int|
            0 < i < text::pieces(rest, separator).len() ==> #[trigger] text::pieces(
                s + rest,
                separator,
            )[i] == text::pieces(rest, separator)[i],
    decreases rest.len(),
{
    let none = Seq::<char>::empty();
    let all = s + rest;
    if rest.len() == 0 {
        text_laws::first_pieces_end_at_the_separator(s, separator, rest);
        assert(rest =~= none);
        assert(all =~= s);
        assert(text::pieces(rest, separator) == seq![none]);
        assert(s + none =~= s);
        text_laws::splitting_undoes_joining(seq![s], separator);
        assert(text::joined(seq![s], seq![separator]) == s);
        assert(text::pieces(s, separator) == seq![s]);
    } else {
        let init = rest.drop_last();
        lemma_first_piece_of_both(s, init, separator);
        assert(all.drop_last() =~= s + init);
        assert(all.last() == rest.last());
        let (x, y) = (text::pieces(s + init, separator), text::pieces(init, separator));
        if rest.last() != separator && y.len() == 1 {
            assert(x.last().push(rest.last()) =~= s + y.last().push(rest.last()));
        }
    }
}

/// What stands before the path of a URL with an address in brackets.
proof fn lemma_bracketed(address: Text, rest: Text) -> (parts: (Text, Text))
    requires
        is_whole(address, '/'),
    ensures
        text::pieces("["@ + address + "]"@ + rest, '/')[0] == parts.0,
        parts.0 == "["@ + (address + parts.1),
        parts.1.len() > 0,
        parts.1[0] == ']',
{
    reveal_strlit("[");
    reveal_strlit("]");
    let head = "["@ + address + "]"@;
    assert forall|i: int| 0 <= i < head.len() implies #[trigger] head[i] != '/' by {
        if 1 <= i <= address.len() {
            assert(head[i] == address[i - 1]);
        }
    }
    lemma_first_piece_of_both(head, rest, '/');
    let port = text::pieces(rest, '/')[0];
    let more = "]"@ + port;
    assert(head + port =~= "["@ + (address + more));
    (head + port, more)
}

/// The host of a URL with an address in brackets is the address.
pub proof fn addresses_stand_in_brackets(scheme: Text, address: Text, rest: Text)
    requires
        forall|j: int|
            0 <= j < scheme.len() ==> !#[trigger] text::stands_at(
                scheme + "://"@ + ("["@ + address + "]"@ + rest),
                j,
                "://"@,
            ),
        address.len() > 0,
        is_whole(address, '/'),
        is_whole(address, ']'),
    ensures
        settings::host_of(scheme + "://"@ + ("["@ + address + "]"@ + rest)) == (Ok::<Text, Text>(
            address,
        )),
{
    let remainder = "["@ + address + "]"@ + rest;
    text_laws::the_first_place_counts(scheme, "://"@, remainder);
    let (authority, more) = lemma_bracketed(address, rest);
    text_laws::prefixes_are_followed_by_the_rest(authority, "["@, address + more);
    text_laws::first_pieces_end_at_the_separator(address, ']', more);
}

/// A URL without a scheme is refused.
pub proof fn hosts_need_a_scheme(url: Text)
    requires
        !text::contains_text(url, "://"@),
    ensures
        settings::host_of(url) == (Err::<Text, Text>("URL must contain a scheme"@)),
{
}

/// Whether a URL is of the web.
pub open spec fn is_of_the_web(url: Text) -> bool {
    exists|rest: Text| url == "http://"@ + rest || url == "https://"@ + rest
}

/// A URL is of the web if it begins with one of the two schemes.
proof fn lemma_of_the_web(url: Text)
    ensures
        settings::is_web_url(url) <==> is_of_the_web(url),
{
    if "http://"@.is_prefix_of(url) {
        assert(url =~= "http://"@ + url.skip("http://"@.len() as int));
    }
    if "https://"@.is_prefix_of(url) {
        assert(url =~= "https://"@ + url.skip("https://"@.len() as int));
    }
    if is_of_the_web(url) {
        let rest = choose|rest: Text| url == "http://"@ + rest || url == "https://"@ + rest;
        assert("http://"@.is_prefix_of("http://"@ + rest));
        assert("https://"@.is_prefix_of("https://"@ + rest));
    }
}

/// The service starts with URLs of the web, an issuer that is not blank, a public URL with
/// a host, and tokens and logins that last a minute at least. Of what is wrong, the first
/// is told.
pub proof fn settings_are_checked(args: ServeArgsView)
    ensures
        ({
            let base = is_of_the_web(args.public_base_url);
            let issuer = !is_blank(args.issuer);
            let host = settings::host_of(args.public_base_url);
            let server = args.lore_grpc_url matches Some(url) ==> is_of_the_web(url);
            let times = args.token_ttl_seconds >= 60 && args.login_ttl_seconds >= 60;
            let r = settings::serve_error(args);
            &&& r is None <==> base && issuer && host is Ok && server && times
            &&& !base ==> r == Some("public base URL must start with http:// or https://"@)
            &&& base && !issuer ==> r == Some("issuer must not be empty"@)
            &&& base && issuer ==> (host matches Err(e) ==> r == Some(e))
            &&& base && issuer && host is Ok && !server ==> r == Some(
                "Lore gRPC URL must start with http:// or https://"@,
            )
            &&& base && issuer && host is Ok && server && !times ==> r == Some(
                "token and login TTLs must be at least 60 seconds"@,
            )
        }),
{
    lemma_of_the_web(args.public_base_url);
    lemma_blank(args.issuer);
    if let Some(url) = args.lore_grpc_url {
        lemma_of_the_web(url);
    }
}

/// With good settings the administrator is put right in the tables, and the audience is the
/// one that was set, or else that of the Lore service. With others nothing is touched.
pub proof fn starting_puts_the_administrator_right(
    tables: DatabaseView,
    args: ServeArgsView,
    salt: Text,
    id: Text,
    now: i64,
)
    ensures
        ({
            let (next, r) = settings::prepared(tables, args, salt, id, now);
            let (mended, outcome) = db::with_bootstrap_admin(
                tables,
                args.bootstrap_username,
                args.bootstrap_password,
                salt,
                id,
                now,
            );
            match settings::serve_error(args) {
                Some(e) => next == tables && r == (Err::<Text, Text>(e)),
                None => {
                    &&& next == mended
                    &&& outcome matches Err(e) ==> r == (Err::<Text, Text>(e))
                    &&& outcome is Ok ==> (r matches Ok(audience) && {
                        &&& args.audience is Some ==> args.audience == Some(audience)
                        &&& args.audience is None ==> audience == "lore-service"@
                    })
                },
            }
        }),
{
}

// ---------------------------------------------------------------------------
// Commands on users
// ---------------------------------------------------------------------------

/// Whether a command printed nothing and ended so.
pub open spec fn is_silent(p: PrintedView, r: Result<(), Text>) -> bool {
    p.lines.len() == 0 && p.result == r
}

/// Whether a command printed one line and ended well.
pub open spec fn prints_one(p: PrintedView, line: Text) -> bool {
    p.lines.len() == 1 && p.lines[0] == line && p.result is Ok
}

/// The command for a new user makes it, under its name unless another is to be shown. An
/// administrator is granted everything on all resources, and nobody else anything.
pub proof fn the_command_makes_users(
    tables: DatabaseView,
    username: Text,
    display_name: Option<Text>,
    password: Text,
    admin: bool,
    salt: Text,
    id: Text,
    now: i64,
)
    ensures
        ({
            let command = UserCommandView::Add { username, display_name, password, admin };
            let (next, p) = commands::user_command_run(tables, command, salt, id, now);
            let shown = if display_name is Some {
                display_name->0
            } else {
                username
            };
            let (made, r) = db::created(
                tables,
                username,
                shown,
                password,
                admin,
                salt,
                id,
                now,
            );
            let (granted, g) = db::with_grant(made, username, "urc-*"@, seq!["*"@]);
            match r {
                Err(e) => next == made && is_silent(p, Err::<(), Text>(e)),
                Ok(user) => {
                    let line = "created "@ + user.username + " ("@ + user.id + ")"@;
                    &&& !admin ==> next == made && prints_one(p, line)
                    &&& admin ==> next == granted
                    &&& admin && g is Ok ==> prints_one(p, line)
                    &&& admin ==> (g matches Err(e) ==> is_silent(p, Err::<(), Text>(e)))
                },
            }
        }),
{
}

/// Whether a line says of a user the name, the identifier, whether it is an administrator
/// and whether it is disabled.
pub open spec fn is_line_of_user(line: Text, user: UserView) -> bool {
    let (yes, no) = ("true"@, "false"@);
    exists|admin: Text, disabled: Text|
        {
            &&& line == #[trigger] (user.username + "\t"@ + user.id + "\tadmin="@ + admin
                + "\tdisabled="@ + disabled)
            &&& admin == if user.is_admin {
                yes
            } else {
                no
            }
            &&& disabled == if user.disabled {
                yes
            } else {
                no
            }
        }
}

/// The command for the list of users prints a line for each, in order, and changes nothing.
pub proof fn the_command_lists_users(
    tables: DatabaseView,
    salt: Text,
    id: Text,
    now: i64,
)
    ensures
        ({
            let (next, p) = commands::user_command_run(
                tables,
                UserCommandView::List,
                salt,
                id,
                now,
            );
            let users = db::listed_users(tables);
            &&& next == tables
            &&& p.result is Ok
            &&& p.lines.len() == users.len()
            &&& forall|i: int|
                0 <= i < users.len() ==> is_line_of_user(#[trigger] p.lines[i], users[i])
        }),
{
    let (next, p) = commands::user_command_run(tables, UserCommandView::List, salt, id, now);
    let users = db::listed_users(tables);
    assert forall|i: int| 0 <= i < users.len() implies is_line_of_user(
        #[trigger] p.lines[i],
        users[i],
    ) by {
        let user = users[i];
        let admin = commands::yes_or_no(user.is_admin);
        let disabled = commands::yes_or_no(user.disabled);
        assert(p.lines[i] == user.username + "\t"@ + user.id + "\tadmin="@ + admin
            + "\tdisabled="@ + disabled);
    }
}

/// The commands that disable, enable and give a new password do so, and print nothing.
pub proof fn the_commands_change_users(
    tables: DatabaseView,
    username: Text,
    password: Text,
    salt: Text,
    id: Text,
    now: i64,
)
    ensures
        ({
            let run = |command: UserCommandView|
                commands::user_command_run(tables, command, salt, id, now);
            let (off, p) = run(UserCommandView::Disable { username });
            let (on, q) = run(UserCommandView::Enable { username });
            let (set, w) = run(UserCommandView::Password { username, password });
            &&& off == db::with_disabled(tables, username, true).0
            &&& is_silent(p, db::with_disabled(tables, username, true).1)
            &&& on == db::with_disabled(tables, username, false).0
            &&& is_silent(q, db::with_disabled(tables, username, false).1)
            &&& set == db::with_password(tables, username, password, salt).0
            &&& is_silent(w, db::with_password(tables, username, password, salt).1)
        }),
{
}

// ---------------------------------------------------------------------------
// Commands on grants
// ---------------------------------------------------------------------------

/// The commands that grant and revoke do so. Only a grant is confirmed.
pub proof fn the_commands_change_grants(
    tables: DatabaseView,
    username: Text,
    resource: Text,
    permissions: Seq<Text>,
)
    ensures
        ({
            let (saved, p) = commands::grant_command_run(
                tables,
                GrantCommandView::Save { username, resource, permissions },
            );
            let (revoked, q) = commands::grant_command_run(
                tables,
                GrantCommandView::Revoke { username, resource },
            );
            let (granted, g) = db::with_grant(tables, username, resource, permissions);
            &&& saved == granted
            &&& g is Ok ==> prints_one(p, "grant updated"@)
            &&& g matches Err(e) ==> is_silent(p, Err::<(), Text>(e))
            &&& revoked == db::without_grant(tables, username, resource).0
            &&& is_silent(q, db::without_grant(tables, username, resource).1)
        }),
{
}

/// The command for the list of grants prints a line for each grant of the user on a single
/// resource, in order, and at the end one for the permissions on all resources, if there
/// are any. It changes nothing.
pub proof fn the_command_lists_grants(tables: DatabaseView, username: Text, k: int)
    requires
        tables.well_formed(),
        0 <= k < tables.users.len(),
        text::same_name(tables.users[k].user.username, username),
    ensures
        ({
            let (next, p) = commands::grant_command_run(
                tables,
                GrantCommandView::List { username },
            );
            let user_id = tables.users[k].user.id;
            let says = |line: Text, resource_id: Text, list: Seq<Text>|
                line == resource_id + "\t"@ + text::joined(list, ","@);
            &&& next == tables
            &&& match db::listed_grants(tables, user_id, Seq::empty()) {
                Err(e) => is_silent(p, Err::<(), Text>(e)),
                Ok(grants) => {
                    &&& forall|i: int|
                        0 <= i < grants.len() ==> says(
                            #[trigger] p.lines[i],
                            grants[i].resource_id,
                            grants[i].permissions,
                        )
                    &&& match db::permitted(tables, user_id, "urc-*"@) {
                        Err(e) => p.lines.len() == grants.len() && p.result == (Err::<(), Text>(e)),
                        Ok(list) => {
                            &&& p.result is Ok
                            &&& list.len() == 0 ==> p.lines.len() == grants.len()
                            &&& list.len() > 0 ==> p.lines.len() == grants.len() + 1 && says(
                                p.lines.last(),
                                "urc-*"@,
                                list,
                            )
                        },
                    }
                },
            }
        }),
{
    table_laws::users_are_found_by_their_rows(
        tables,
        username,
        tables.users[k].user.id,
        k,
    );
}

/// The grants of nobody are not listed.
pub proof fn the_command_lists_grants_of_users_only(tables: DatabaseView, username: Text)
    requires
        !table_laws::is_taken(tables, username),
    ensures
        ({
            let (next, p) = commands::grant_command_run(
                tables,
                GrantCommandView::List { username },
            );
            &&& next == tables
            &&& is_silent(p, Err::<(), Text>("user not found: "@ + username))
        }),
{
    table_laws::lemma_taken(tables, username, Seq::empty());
}

} // verus!
