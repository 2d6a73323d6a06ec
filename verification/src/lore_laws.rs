//! What is asked of a Lore server, and what its answers come to.

use vstd::prelude::*;
use vstd::utf8::*;

use crate::lore_admin;
use crate::lore_admin::{
    BranchItemView, HistoryActionView, HistoryEventView, HistoryView, LiveRepository,
    LiveRepositoryView, RepositoryItem, RepositoryItemView, RevisionDetailsView,
    RevisionHistoryEntry, RevisionHistoryEntryView, RevisionItemView,
};
use crate::sorting;
use crate::sorting::Ranked;
use crate::text;
use crate::text::Text;
use crate::text_laws;

verus! {

// ---------------------------------------------------------------------------
// Identifiers
// ---------------------------------------------------------------------------

/// Whether a character is the hexadecimal digit of a number, small or capital.
pub open spec fn is_digit_of(c: char, n: int) -> bool {
    0 <= n < 16 && ("0123456789abcdef"@[n] == c || "0123456789ABCDEF"@[n] == c)
}

/// The value of a digit is the number that it is the digit of.
proof fn lemma_digit_value(c: char, n: u8)
    ensures
        lore_admin::digit_value(c) == Some(n) <==> is_digit_of(c, n as int),
{
    reveal_strlit("0123456789abcdef");
    reveal_strlit("0123456789ABCDEF");
    let (small, capital) = ("0123456789abcdef"@, "0123456789ABCDEF"@);
    assert forall|k: int| 0 <= k < 16 implies #[trigger] small[k] as u32 == (if k < 10 {
        0x30 + k
    } else {
        0x57 + k
    }) by {}
    assert forall|k: int| 0 <= k < 16 implies #[trigger] capital[k] as u32 == (if k < 10 {
        0x30 + k
    } else {
        0x37 + k
    }) by {}
    if n < 16 {
        assert(small[n as int] as u32 == if n < 10 {
            0x30 + n
        } else {
            0x57 + n
        });
        assert(capital[n as int] as u32 == if n < 10 {
            0x30 + n
        } else {
            0x37 + n
        });
    }
}

/// A byte is written in hexadecimal as two small digits, the greater first.
pub proof fn bytes_are_written_as_two_digits(bytes: Seq<u8>, i: int)
    requires
        0 <= i < bytes.len(),
    ensures
        lore_admin::hex(bytes).len() == 2 * bytes.len(),
        lore_admin::hex(bytes)[2 * i] == "0123456789abcdef"@[bytes[i] as int / 16],
        lore_admin::hex(bytes)[2 * i + 1] == "0123456789abcdef"@[bytes[i] as int % 16],
{
    reveal_strlit("0123456789abcdef");
    let small = "0123456789abcdef"@;
    assert((2 * i) / 2 == i && (2 * i) % 2 == 0 && (2 * i + 1) / 2 == i && (2 * i + 1) % 2 == 1);
    assert forall|k: int| 0 <= k < 16 implies #[trigger] small[k] as u32 == (if k < 10 {
        0x30 + k
    } else {
        0x57 + k
    }) by {}
    let (high, low) = (bytes[i] as int / 16, bytes[i] as int % 16);
    assert(small[high] == lore_admin::small_digit(high));
    assert(small[low] == lore_admin::small_digit(low));
}

/// Whether two characters say a byte: two digits, or a plus sign and a digit.
pub open spec fn says_byte(a: char, b: char, byte: u8) -> bool {
    is_digit_of(b, byte as int % 16) && (is_digit_of(a, byte as int / 16) || a == '+' && byte < 16)
}

/// Two characters are read as the byte that they say, and else not at all.
proof fn lemma_pair_value(a: char, b: char, byte: u8)
    ensures
        lore_admin::pair_value(a, b) == Some(byte) <==> says_byte(a, b, byte),
        says_byte(a, b, byte) ==> '\0' <= a <= '\u{7f}' && '\0' <= b <= '\u{7f}',
{
    let (high, low) = ((byte / 16) as u8, (byte % 16) as u8);
    lemma_digit_value(a, high);
    lemma_digit_value(b, low);
    assert(high as int == byte as int / 16 && low as int == byte as int % 16);
    if let Some(h) = lore_admin::digit_value(a) {
        if let Some(l) = lore_admin::digit_value(b) {
            assert(h < 16 && l < 16);
            assert((h * 16 + l) / 16 == h && (h * 16 + l) % 16 == l as int);
        }
    }
}

/// Whether characters say bytes, two for each.
pub open spec fn say_bytes(digits: Text, bytes: Seq<u8>) -> bool {
    &&& digits.len() == 2 * bytes.len()
    &&& forall|i: int|
        0 <= i < bytes.len() ==> says_byte(digits[2 * i], digits[2 * i + 1], #[trigger] bytes[i])
}

/// The identifier of a repository is read as the sixteen bytes that are said behind its
/// prefix, and nothing else is read.
pub proof fn identifiers_say_sixteen_bytes(digits: Text, bytes: Seq<u8>)
    ensures
        lore_admin::decoded_resource_id("urc-"@ + digits) == (Ok::<Seq<u8>, Text>(bytes))
            <==> bytes.len() == 16 && say_bytes(digits, bytes),
{
    let s = "urc-"@ + digits;
    text_laws::prefixes_are_followed_by_the_rest(s, "urc-"@, digits);
    if bytes.len() == 16 && say_bytes(digits, bytes) {
        assert forall|i: int| 0 <= i < 16 implies #[trigger] lore_admin::pair_value(
            digits[2 * i],
            digits[2 * i + 1],
        ) == Some(bytes[i]) by {
            lemma_pair_value(digits[2 * i], digits[2 * i + 1], bytes[i]);
        }
        assert forall|k: int| 0 <= k < digits.len() implies '\0' <= (#[trigger] digits[k])
            <= '\u{7f}' by {
            let i = k / 2;
            assert(says_byte(digits[2 * i], digits[2 * i + 1], bytes[i]));
            lemma_pair_value(digits[2 * i], digits[2 * i + 1], bytes[i]);
            assert(k == 2 * i || k == 2 * i + 1);
        }
        is_ascii_chars_encode_utf8(digits);
        assert(lore_admin::identifier_bytes(digits)->0 =~= bytes);
    }
    if lore_admin::decoded_resource_id(s) == (Ok::<Seq<u8>, Text>(bytes)) {
        assert forall|i: int| 0 <= i < bytes.len() implies says_byte(
            digits[2 * i],
            digits[2 * i + 1],
            #[trigger] bytes[i],
        ) by {
            assert(lore_admin::pair_value(digits[2 * i], digits[2 * i + 1]) is Some);
            lemma_pair_value(digits[2 * i], digits[2 * i + 1], bytes[i]);
        }
    }
}

/// What is wrong with an identifier is told: no prefix, another length, or other
/// characters.
pub proof fn wrong_identifiers_are_told_apart(s: Text, digits: Text)
    ensures
        !"urc-"@.is_prefix_of(s) ==> lore_admin::decoded_resource_id(s) == (Err::<Seq<u8>, Text>(
            "仓库 ID 缺少 urc- 前缀"@,
        )),
        encode_utf8(digits).len() != 32 ==> lore_admin::decoded_resource_id("urc-"@ + digits) == (
        Err::<Seq<u8>, Text>("仓库 ID 必须包含 32 位十六进制字符"@)),
        encode_utf8(digits).len() == 32 && lore_admin::decoded_resource_id("urc-"@ + digits) is Err
            ==> lore_admin::decoded_resource_id("urc-"@ + digits) == (Err::<Seq<u8>, Text>(
            "仓库 ID 不是十六进制"@,
        )),
{
    text_laws::prefixes_are_followed_by_the_rest("urc-"@ + digits, "urc-"@, digits);
}

/// A call on a repository carries the token as its bearer, and the bytes of the identifier;
/// where these cannot be read, there is no call.
pub proof fn calls_carry_token_and_identifier(token: Text, resource_id: Text)
    ensures
        match lore_admin::repository_call(token, resource_id) {
            Ok(call) => {
                &&& call.authorization == "Bearer "@ + token
                &&& lore_admin::decoded_resource_id(resource_id) == (Ok::<Seq<u8>, Text>(
                    call.repository_id,
                ))
            },
            Err(e) => lore_admin::decoded_resource_id(resource_id) == (Err::<Seq<u8>, Text>(e)),
        },
{
}

/// An error is told as the code and the message that the server gave, or as it is.
pub proof fn errors_are_told_with_their_code(code: Text, message: Text, error: Text)
    ensures
        lore_admin::error_message(Some((code, message)), error) == code + "："@ + message,
        lore_admin::error_message(None, error) == error,
{
}

// ---------------------------------------------------------------------------
// Repositories
// ---------------------------------------------------------------------------

/// Whether a repository is shown as the server has listed it, under its identifier.
pub open spec fn is_shown(r: LiveRepositoryView, item: RepositoryItemView) -> bool {
    &&& r.resource_id == "urc-"@ + lore_admin::hex(item.id)
    &&& r.name == item.name
    &&& r.description == item.description
    &&& r.default_branch_id == item.default_branch_id
    &&& r.default_branch_name == item.default_branch_name
    &&& r.creator == item.creator
    &&& r.created == item.created
}

/// Whether repositories are those at the given places of some answers, which are all that
/// hold one.
pub open spec fn are_those_at(
    shown: Seq<LiveRepositoryView>,
    answers: Seq<Option<RepositoryItem>>,
    at: Seq<int>,
) -> bool {
    &&& shown.len() == at.len()
    &&& forall|k: int, m: int| 0 <= k < m < at.len() ==> #[trigger] at[k] < #[trigger] at[m]
    &&& forall|k: int|
        0 <= k < at.len() ==> 0 <= #[trigger] at[k] < answers.len() && (
        answers[at[k]] matches Some(item) && is_shown(shown[k], item@))
    &&& forall|i: int|
        0 <= i < answers.len() ==> (at.contains(i) <==> (#[trigger] answers[i]) is Some)
}

/// Of the answers of a server, each that holds a repository is shown once, in their order.
pub proof fn listed_repositories_are_shown(answers: Seq<Option<RepositoryItem>>)
    ensures
        exists|at: Seq<int>| #[trigger] are_those_at(lore_admin::live_ones(answers), answers, at),
    decreases answers.len(),
{
    let shown = lore_admin::live_ones(answers);
    if answers.len() == 0 {
        assert(are_those_at(shown, answers, Seq::empty()));
    } else {
        let init = answers.drop_last();
        let n = answers.len() - 1;
        listed_repositories_are_shown(init);
        let most = lore_admin::live_ones(init);
        let before = choose|at: Seq<int>| #[trigger] are_those_at(most, init, at);
        assert(forall|i: int| 0 <= i < n ==> #[trigger] init[i] == answers[i]);
        let at = if answers[n] is Some {
            before.push(n)
        } else {
            before
        };
        assert forall|k: int, m: int| 0 <= k < m < at.len() implies #[trigger] at[k]
            < #[trigger] at[m] by {
            assert(at[k] == before[k]);
            if m < before.len() {
                assert(at[m] == before[m]);
            }
        }
        assert forall|k: int| 0 <= k < at.len() implies 0 <= #[trigger] at[k] < answers.len() && (
        answers[at[k]] matches Some(item) && is_shown(shown[k], item@)) by {
            if k < before.len() {
                assert(at[k] == before[k]);
                assert(init[before[k]] == answers[before[k]]);
                assert(shown[k] == most[k]);
            }
        }
        assert forall|i: int| 0 <= i < answers.len() implies (at.contains(i) <==> (
        #[trigger] answers[i]) is Some) by {
            if i < n {
                assert(init[i] == answers[i]);
                if before.contains(i) {
                    let k = choose|k: int| 0 <= k < before.len() && before[k] == i;
                    assert(at[k] == i);
                }
                if at.contains(i) {
                    let k = choose|k: int| 0 <= k < at.len() && at[k] == i;
                    assert(before[k] == i);
                }
            } else {
                if answers[n] is Some {
                    assert(at[before.len() as int] == n);
                } else if at.contains(i) {
                    let k = choose|k: int| 0 <= k < at.len() && at[k] == i;
                    assert(before[k] < init.len());
                }
            }
        }
        assert(are_those_at(shown, answers, at));
    }
}

/// A filter on a longer list.
proof fn lemma_filter_push<V>(rows: Seq<V>, row: V, p: spec_fn(V) -> bool)
    ensures
        rows.push(row).filter(p) == if p(row) {
            rows.filter(p).push(row)
        } else {
            rows.filter(p)
        },
{
    reveal(Seq::filter);
    assert(rows.push(row).drop_last() =~= rows);
}

/// Putting a row into its place keeps the order of rows of which neither comes before the
/// other.
proof fn lemma_placed_keeps_order<R: Ranked>(rows: Seq<R::V>, row: R::V, p: spec_fn(R::V) -> bool)
    requires
        forall|a: R::V, b: R::V| p(a) && p(b) ==> !#[trigger] R::before(a, b),
    ensures
        sorting::placed::<R>(rows, row).filter(p) == rows.push(row).filter(p),
    decreases rows.len(),
{
    if rows.len() > 0 && R::before(row, rows.last()) {
        let (init, last) = (rows.drop_last(), rows.last());
        lemma_placed_keeps_order::<R>(init, row, p);
        lemma_filter_push(sorting::placed::<R>(init, row), last, p);
        lemma_filter_push(init, row, p);
        lemma_filter_push(init, last, p);
        lemma_filter_push(rows, row, p);
        assert(init.push(last) =~= rows);
    }
}

/// Rows of which neither comes before the other stay in the order they came.
pub proof fn sorting_keeps_the_order_of_equals<R: Ranked>(
    rows: Seq<R::V>,
    p: spec_fn(R::V) -> bool,
)
    requires
        forall|a: R::V, b: R::V| p(a) && p(b) ==> !#[trigger] R::before(a, b),
    ensures
        sorting::sorted::<R>(rows).filter(p) == rows.filter(p),
    decreases rows.len(),
{
    if rows.len() > 0 {
        let (init, last) = (rows.drop_last(), rows.last());
        sorting_keeps_the_order_of_equals::<R>(init, p);
        let most = sorting::sorted::<R>(init);
        lemma_placed_keeps_order::<R>(most, last, p);
        lemma_filter_push(most, last, p);
        lemma_filter_push(init, last, p);
        assert(init.push(last) =~= rows);
    }
}

/// Repositories are listed by name, none lost and none added; those with the same name stay
/// in the order in which the server lists them.
pub proof fn repositories_are_listed_by_name(rows: Seq<LiveRepositoryView>, name: Text)
    ensures
        ({
            let list = sorting::sorted::<LiveRepository>(rows);
            let p = |r: LiveRepositoryView| r.name == name;
            &&& list.to_multiset() == rows.to_multiset()
            &&& forall|i: int, j: int|
                0 <= i < j < list.len() ==> (#[trigger] list[i]).name == (#[trigger] list[j]).name
                    || text::text_less(list[i].name, list[j].name)
            &&& list.filter(p) == rows.filter(p)
        }),
{
    let list = sorting::sorted::<LiveRepository>(rows);
    let p = |r: LiveRepositoryView| r.name == name;
    sorting::sorting_permutes_and_orders::<LiveRepository>(rows);
    assert forall|i: int, j: int| 0 <= i < j < list.len() implies (#[trigger] list[i]).name == (
    #[trigger] list[j]).name || text::text_less(list[i].name, list[j].name) by {
        assert(!LiveRepository::before(list[j], list[i]));
        text::lemma_text_less_total(list[i].name, list[j].name);
    }
    text::lemma_text_less_irreflexive(name);
    sorting_keeps_the_order_of_equals::<LiveRepository>(rows, p);
}

// ---------------------------------------------------------------------------
// Histories
// ---------------------------------------------------------------------------

/// Whether an entry tells of a revision what the server says: its signature in hexadecimal,
/// and, where there are details, these. The number is that of the details unless it is
/// zero.
pub open spec fn tells_of(
    e: RevisionHistoryEntryView,
    branch_name: Text,
    item: RevisionItemView,
    details: Option<RevisionDetailsView>,
) -> bool {
    &&& e.branch_name == branch_name
    &&& e.signature == lore_admin::hex(item.signature)
    &&& details matches Some(d) ==> {
        &&& e.message == d.message
        &&& e.timestamp == d.timestamp
        &&& e.committed_by == d.committed_by
        &&& d.number != 0 ==> e.number == d.number
        &&& d.number == 0 ==> e.number == item.number
    }
    &&& details is None ==> {
        &&& e.message.len() == 0
        &&& e.timestamp == 0
        &&& e.committed_by.len() == 0
        &&& e.number == item.number
    }
}

/// Whether the next question is for the first of the revisions that are left, or, without
/// any, for the next branch.
pub open spec fn asks_on(h: HistoryView, action: HistoryActionView) -> bool {
    match action {
        HistoryActionView::DescribeRevision(signature, number) => h.todo.len() > 0 && signature
            == h.todo[0].signature && number == h.todo[0].number,
        HistoryActionView::NextBranch => h.todo.len() == 0,
        _ => false,
    }
}

/// A branch is named, and its revisions are asked for. Where the answer holds none, the
/// next one is asked for, and after the last one nothing is. No entry comes or goes.
pub proof fn branches_are_read_one_by_one(h: HistoryView, branch: BranchItemView)
    ensures
        ({
            let (next, action) = lore_admin::history_step(
                h,
                HistoryEventView::Branch(Some(branch)),
            );
            &&& next.entries == h.entries
            &&& next.todo == h.todo
            &&& next.branch_name == branch.name
            &&& action == HistoryActionView::ListRevisions(branch.id)
        }),
        lore_admin::history_step(h, HistoryEventView::Branch(None)) == (
            h,
            HistoryActionView::NextBranch,
        ),
        lore_admin::history_step(h, HistoryEventView::BranchesEnd) == (h, HistoryActionView::Done),
{
}

/// The revisions of a branch are asked for one by one, in the order of the list.
pub proof fn revisions_are_asked_for_in_order(h: HistoryView, list: Seq<RevisionItemView>)
    ensures
        ({
            let (next, action) = lore_admin::history_step(h, HistoryEventView::Revisions(list));
            &&& next.entries == h.entries
            &&& next.branch_name == h.branch_name
            &&& next.todo == list
            &&& asks_on(next, action)
        }),
{
}

/// An answer on a revision is an entry more, for the revision that was asked for, which is
/// done with; then the next one is asked for.
pub proof fn answers_are_one_entry_each(h: HistoryView, details: Option<RevisionDetailsView>)
    requires
        h.todo.len() > 0,
    ensures
        ({
            let (next, action) = lore_admin::history_step(h, HistoryEventView::Revision(details));
            &&& next.branch_name == h.branch_name
            &&& next.todo.len() == h.todo.len() - 1
            &&& forall|i: int| 0 <= i < next.todo.len() ==> #[trigger] next.todo[i] == h.todo[i + 1]
            &&& next.entries.len() == h.entries.len() + 1
            &&& forall|i: int|
                0 <= i < h.entries.len() ==> #[trigger] next.entries[i] == h.entries[i]
            &&& tells_of(next.entries.last(), h.branch_name, h.todo[0], details)
            &&& asks_on(next, action)
        }),
{
}

/// Entries of a time.
pub open spec fn committed_at(time: u64) -> spec_fn(RevisionHistoryEntryView) -> bool {
    |e: RevisionHistoryEntryView| e.timestamp == time
}

/// The end of a history is its fifty latest entries, or all where there are fewer, the
/// latest first. None that is left out is later than one that is shown, and those of the
/// same time stay in the order in which they came.
pub proof fn the_latest_entries_are_kept(h: HistoryView)
    ensures
        ({
            let shown = lore_admin::finished(h);
            let all = h.entries;
            &&& shown.len() == if all.len() <= 50 {
                all.len()
            } else {
                50
            }
            &&& forall|i: int, j: int|
                0 <= i < j < shown.len() ==> (#[trigger] shown[i]).timestamp >= (
                #[trigger] shown[j]).timestamp
            &&& exists|left: Seq<RevisionHistoryEntryView>|
                {
                    &&& (#[trigger] (shown + left)).to_multiset() == all.to_multiset()
                    &&& forall|i: int, j: int|
                        0 <= i < shown.len() && 0 <= j < left.len() ==> (
                        #[trigger] shown[i]).timestamp >= (#[trigger] left[j]).timestamp
                    &&& forall|time: u64|
                        (shown + left).filter(committed_at(time)) == all.filter(
                            #[trigger] committed_at(time),
                        )
                }
        }),
{
    let all = h.entries;
    let sorted = sorting::sorted::<RevisionHistoryEntry>(all);
    let shown = lore_admin::finished(h);
    sorting::sorting_permutes_and_orders::<RevisionHistoryEntry>(all);
    let left = sorted.skip(shown.len() as int);
    assert(shown + left =~= sorted);
    assert forall|i: int, j: int| 0 <= i < j < shown.len() implies (#[trigger] shown[i]).timestamp
        >= (#[trigger] shown[j]).timestamp by {
        assert(!RevisionHistoryEntry::before(sorted[j], sorted[i]));
    }
    assert forall|i: int, j: int| 0 <= i < shown.len() && 0 <= j < left.len() implies (
    #[trigger] shown[i]).timestamp >= (#[trigger] left[j]).timestamp by {
        assert(!RevisionHistoryEntry::before(sorted[j + shown.len()], sorted[i]));
    }
    assert forall|time: u64|
        (shown + left).filter(committed_at(time)) == all.filter(#[trigger] committed_at(time)) by {
        sorting_keeps_the_order_of_equals::<RevisionHistoryEntry>(all, committed_at(time));
    }
}

} // verus!
