//! Reading repositories and their history from a Lore server: what to ask next, and
//! what the answers come to.

use vstd::prelude::*;
use vstd::string::*;
use vstd::utf8::*;

use crate::sorting;
use crate::sorting::{views, Ranked};
use crate::text;
use crate::text::Text;

verus! {

// ---------------------------------------------------------------------------
// Identifiers in hexadecimal
// ---------------------------------------------------------------------------

/// The hexadecimal digit of a number below 16, in small letters.
pub open spec fn small_digit(n: int) -> char {
    if n < 10 {
        (0x30 + n) as char
    } else {
        (0x61 + n - 10) as char
    }
}

/// Bytes in hexadecimal, two digits for each.
pub open spec fn hex(bytes: Seq<u8>) -> Text {
    Seq::new(
        bytes.len() * 2,
        |i: int|
            if i % 2 == 0 {
                small_digit(bytes[i / 2] as int / 16)
            } else {
                small_digit(bytes[i / 2] as int % 16)
            },
    )
}

fn digit(n: u8) -> (c: char)
    requires
        n < 16,
    ensures
        c == small_digit(n as int),
{
    if n < 10 {
        (0x30 + n) as char
    } else {
        (0x61 + (n - 10)) as char
    }
}

pub fn encode_hex(bytes: &[u8]) -> (r: String)
    ensures
        r@ == hex(bytes@),
{
    let mut r = String::new();
    let mut i: usize = 0;
    assert(r@ =~= hex(bytes@.take(0)));
    while i < bytes.len()
        invariant
            i <= bytes@.len(),
            r@ == hex(bytes@.take(i as int)),
        decreases bytes@.len() - i,
    {
        let b = bytes[i];
        let ghost before = r@;
        r.push(digit(b / 16));
        r.push(digit(b % 16));
        proof {
            let next = hex(bytes@.take(i + 1));
            assert(next.len() == before.len() + 2);
            assert forall|k: int| 0 <= k < next.len() implies #[trigger] r@[k] == next[k] by {
                if k < before.len() {
                    assert(bytes@.take(i as int)[k / 2] == bytes@.take(i + 1)[k / 2]);
                    assert(before[k] == next[k]);
                } else {
                    assert(k / 2 == i);
                }
            }
            assert(r@ =~= next);
        }
        i = i + 1;
    }
    assert(bytes@.take(i as int) =~= bytes@);
    r
}

/// The value of a hexadecimal digit.
pub open spec fn digit_value(c: char) -> Option<u8> {
    if '0' <= c <= '9' {
        Some((c as u32 - 0x30) as u8)
    } else if 'a' <= c <= 'f' {
        Some((c as u32 - 0x61 + 10) as u8)
    } else if 'A' <= c <= 'F' {
        Some((c as u32 - 0x41 + 10) as u8)
    } else {
        None
    }
}

fn value_of_digit(c: char) -> (r: Option<u8>)
    ensures
        r == digit_value(c),
        r matches Some(n) ==> n < 16,
{
    let n: u32 = c as u32;
    if '0' <= c && c <= '9' {
        Some((n - 0x30) as u8)
    } else if 'a' <= c && c <= 'f' {
        Some((n - 0x61 + 10) as u8)
    } else if 'A' <= c && c <= 'F' {
        Some((n - 0x41 + 10) as u8)
    } else {
        None
    }
}

/// The byte that two characters are: two digits, or a plus sign and a digit.
pub open spec fn pair_value(a: char, b: char) -> Option<u8> {
    match (digit_value(a), digit_value(b)) {
        (Some(high), Some(low)) => Some((high * 16 + low) as u8),
        (None, Some(low)) => if a == '+' {
            Some(low)
        } else {
            None
        },
        _ => None,
    }
}

/// The bytes behind the digits of an identifier, where there are 32 of them.
pub open spec fn identifier_bytes(digits: Text) -> Option<Seq<u8>> {
    if digits.len() == 32 && forall|i: int|
        0 <= i < 16 ==> (#[trigger] pair_value(digits[2 * i], digits[2 * i + 1])) is Some {
        Some(Seq::new(16, |i: int| pair_value(digits[2 * i], digits[2 * i + 1])->0))
    } else {
        None
    }
}

/// The bytes of the identifier of a repository, or why there are none.
pub open spec fn decoded_resource_id(resource_id: Text) -> Result<Seq<u8>, Text> {
    match text::after_prefix(resource_id, "urc-"@) {
        None => Err("仓库 ID 缺少 urc- 前缀"@),
        Some(digits) => if encode_utf8(digits).len() != 32 {
            Err("仓库 ID 必须包含 32 位十六进制字符"@)
        } else {
            match identifier_bytes(digits) {
                Some(bytes) => Ok(bytes),
                None => Err("仓库 ID 不是十六进制"@),
            }
        },
    }
}

pub open spec fn bytes_outcome(r: Result<Vec<u8>, String>) -> Result<Seq<u8>, Text> {
    match r {
        Ok(bytes) => Ok(bytes@),
        Err(e) => Err(e@),
    }
}

pub fn decode_resource_id(resource_id: &str) -> (r: Result<Vec<u8>, String>)
    ensures
        bytes_outcome(r) == decoded_resource_id(resource_id@),
{
    let value = match text::strip_prefix(resource_id, "urc-") {
        Some(value) => value,
        None => {
            return Err("仓库 ID 缺少 urc- 前缀".to_owned());
        },
    };
    if value.as_str().as_bytes().len() != 32 {
        return Err("仓库 ID 必须包含 32 位十六进制字符".to_owned());
    }
    let digits = text::chars_of(value.as_str());
    if digits.len() != 32 {
        return Err("仓库 ID 不是十六进制".to_owned());
    }
    let mut bytes: Vec<u8> = Vec::new();
    let mut i: usize = 0;
    while i < 16
        invariant
            i <= 16,
            digits@ == value@,
            digits@.len() == 32,
            text::after_prefix(resource_id@, "urc-"@) == Some(value@),
            encode_utf8(value@).len() == 32,
            bytes@.len() == i,
            forall|k: int|
                0 <= k < i ==> (#[trigger] pair_value(digits@[2 * k], digits@[2 * k + 1])) == Some(
                    bytes@[k],
                ),
        decreases 16 - i,
    {
        let a = digits[2 * i];
        let b = digits[2 * i + 1];
        let high = match value_of_digit(a) {
            Some(n) => Some(n),
            None => {
                if a == '+' {
                    Some(0)
                } else {
                    None
                }
            },
        };
        let byte = match (high, value_of_digit(b)) {
            (Some(high), Some(low)) => high * 16 + low,
            _ => {
                assert(pair_value(digits@[2 * i as int], digits@[2 * i + 1]) is None);
                return Err("仓库 ID 不是十六进制".to_owned());
            },
        };
        assert(pair_value(digits@[2 * i as int], digits@[2 * i + 1]) == Some(byte));
        bytes.push(byte);
        i = i + 1;
    }
    proof {
        assert forall|k: int| 0 <= k < 16 implies (#[trigger] pair_value(
            value@[2 * k],
            value@[2 * k + 1],
        )) is Some by {
            assert(pair_value(digits@[2 * k], digits@[2 * k + 1]) == Some(bytes@[k]));
        }
        assert(bytes@ =~= identifier_bytes(value@)->0) by {
            assert forall|k: int| 0 <= k < 16 implies bytes@[k] == #[trigger] identifier_bytes(
                value@,
            )->0[k] by {
                assert(pair_value(digits@[2 * k], digits@[2 * k + 1]) == Some(bytes@[k]));
            }
        }
    }
    Ok(bytes)
}

/// The identifier of the repository with these bytes.
pub open spec fn resource_id_of(id: Seq<u8>) -> Text {
    "urc-"@ + hex(id)
}

/// The bytes of an identifier come back from its text.
pub proof fn resource_ids_decode(id: Seq<u8>)
    requires
        id.len() == 16,
    ensures
        decoded_resource_id(resource_id_of(id)) == (Ok::<Seq<u8>, Text>(id)),
{
    let text = resource_id_of(id);
    let digits = hex(id);
    assert("urc-"@.is_prefix_of(text));
    assert(text.skip("urc-"@.len() as int) =~= digits);
    assert forall|i: int| 0 <= i < 16 implies #[trigger] pair_value(
        digits[2 * i],
        digits[2 * i + 1],
    ) == Some(id[i]) by {
        let b = id[i] as int;
        assert((2 * i) / 2 == i && (2 * i) % 2 == 0 && (2 * i + 1) / 2 == i && (2 * i + 1) % 2
            == 1);
        assert(digits[2 * i] == small_digit(b / 16));
        assert(digits[2 * i + 1] == small_digit(b % 16));
        lemma_digit(b / 16);
        lemma_digit(b % 16);
        assert(b / 16 * 16 + b % 16 == b);
    }
    assert(identifier_bytes(digits)->0 =~= id);
    assert(forall|i: int| 0 <= i < digits.len() ==> '\0' <= (#[trigger] digits[i]) <= '\u{7f}');
    lemma_ascii_length(digits);
}

proof fn lemma_digit(n: int)
    requires
        0 <= n < 16,
    ensures
        digit_value(small_digit(n)) == Some(n as u8),
{
}

/// Characters below 128 take one byte each.
proof fn lemma_ascii_length(s: Text)
    requires
        forall|i: int| 0 <= i < s.len() ==> '\0' <= (#[trigger] s[i]) <= '\u{7f}',
    ensures
        encode_utf8(s).len() == s.len(),
    decreases s.len(),
{
    is_ascii_chars_encode_utf8(s);
}

/// The text of an identifier in small letters comes back from its bytes.
pub proof fn resource_ids_round_trip(digits: Text)
    requires
        digits.len() == 32,
        forall|i: int|
            0 <= i < 32 ==> '0' <= (#[trigger] digits[i]) <= '9' || 'a' <= digits[i] <= 'f',
    ensures
        decoded_resource_id("urc-"@ + digits) matches Ok(id) && resource_id_of(id) == "urc-"@
            + digits,
{
    let text = "urc-"@ + digits;
    assert("urc-"@.is_prefix_of(text));
    assert(text.skip("urc-"@.len() as int) =~= digits);
    assert forall|i: int| 0 <= i < 16 implies (#[trigger] pair_value(
        digits[2 * i],
        digits[2 * i + 1],
    )) is Some by {
        assert('0' <= digits[2 * i] <= '9' || 'a' <= digits[2 * i] <= 'f');
        assert('0' <= digits[2 * i + 1] <= '9' || 'a' <= digits[2 * i + 1] <= 'f');
    }
    lemma_ascii_length(digits);
    let id = identifier_bytes(digits)->0;
    assert(hex(id) =~= digits) by {
        assert forall|k: int| 0 <= k < 32 implies hex(id)[k] == #[trigger] digits[k] by {
            let i = k / 2;
            assert(2 * i == k || 2 * i + 1 == k);
            assert(pair_value(digits[2 * i], digits[2 * i + 1]) is Some);
            assert('0' <= digits[2 * i] <= '9' || 'a' <= digits[2 * i] <= 'f');
            assert('0' <= digits[2 * i + 1] <= '9' || 'a' <= digits[2 * i + 1] <= 'f');
            let high = digit_value(digits[2 * i])->0;
            let low = digit_value(digits[2 * i + 1])->0;
            assert(high < 16 && low < 16);
            assert(id[i] == high * 16 + low);
            assert(id[i] as int / 16 == high && id[i] as int % 16 == low);
        }
    }
}


// ---------------------------------------------------------------------------
// Repositories
// ---------------------------------------------------------------------------

/// A repository as the Lore server lists it.
#[derive(Debug)]
pub struct RepositoryItem {
    pub id: Vec<u8>,
    pub name: String,
    pub description: String,
    pub default_branch_id: Vec<u8>,
    pub default_branch_name: String,
    pub creator: String,
    pub created: u64,
}

#[verifier::ext_equal]
pub struct RepositoryItemView {
    pub id: Seq<u8>,
    pub name: Text,
    pub description: Text,
    pub default_branch_id: Seq<u8>,
    pub default_branch_name: Text,
    pub creator: Text,
    pub created: u64,
}

impl View for RepositoryItem {
    type V = RepositoryItemView;

    open spec fn view(&self) -> RepositoryItemView {
        RepositoryItemView {
            id: self.id@,
            name: self.name@,
            description: self.description@,
            default_branch_id: self.default_branch_id@,
            default_branch_name: self.default_branch_name@,
            creator: self.creator@,
            created: self.created,
        }
    }
}

/// A repository of the Lore server.
#[derive(Debug)]
pub struct LiveRepository {
    pub resource_id: String,
    pub name: String,
    pub description: String,
    pub default_branch_id: Vec<u8>,
    pub default_branch_name: String,
    pub creator: String,
    pub created: u64,
}

#[verifier::ext_equal]
pub struct LiveRepositoryView {
    pub resource_id: Text,
    pub name: Text,
    pub description: Text,
    pub default_branch_id: Seq<u8>,
    pub default_branch_name: Text,
    pub creator: Text,
    pub created: u64,
}

impl View for LiveRepository {
    type V = LiveRepositoryView;

    open spec fn view(&self) -> LiveRepositoryView {
        LiveRepositoryView {
            resource_id: self.resource_id@,
            name: self.name@,
            description: self.description@,
            default_branch_id: self.default_branch_id@,
            default_branch_name: self.default_branch_name@,
            creator: self.creator@,
            created: self.created,
        }
    }
}

/// Repositories rank by name.
impl Ranked for LiveRepository {
    open spec fn before(a: LiveRepositoryView, b: LiveRepositoryView) -> bool {
        text::text_less(a.name, b.name)
    }

    fn comes_before(&self, other: &Self) -> (r: bool) {
        text::is_less(self.name.as_str(), other.name.as_str())
    }

    proof fn before_asymmetric(a: LiveRepositoryView, b: LiveRepositoryView) {
        text::lemma_text_less_asymmetric(a.name, b.name);
    }

    proof fn not_before_transitive(
        a: LiveRepositoryView,
        b: LiveRepositoryView,
        c: LiveRepositoryView,
    ) {
        text::lemma_not_less_transitive(a.name, b.name, c.name);
    }
}

pub open spec fn live(item: RepositoryItemView) -> LiveRepositoryView {
    LiveRepositoryView {
        resource_id: resource_id_of(item.id),
        name: item.name,
        description: item.description,
        default_branch_id: item.default_branch_id,
        default_branch_name: item.default_branch_name,
        creator: item.creator,
        created: item.created,
    }
}

/// The repositories that a list of answers holds. An answer may hold none.
pub open spec fn live_ones(answers: Seq<Option<RepositoryItem>>) -> Seq<LiveRepositoryView>
    decreases answers.len(),
{
    if answers.len() == 0 {
        Seq::empty()
    } else {
        match answers.last() {
            Some(item) => live_ones(answers.drop_last()).push(live(item@)),
            None => live_ones(answers.drop_last()),
        }
    }
}

/// The endpoint of a Lore server.
#[derive(Debug)]
pub struct LoreAdminClient {
    pub endpoint: String,
}

impl Clone for LoreAdminClient {
    fn clone(&self) -> (r: Self)
        ensures
            r == *self,
    {
        LoreAdminClient { endpoint: self.endpoint.clone() }
    }
}

impl LoreAdminClient {
    pub fn new(endpoint: &str) -> (r: LoreAdminClient)
        ensures
            r.endpoint@ == text::without_trailing_slashes(endpoint@),
    {
        LoreAdminClient { endpoint: text::strip_trailing_slashes(endpoint) }
    }

    /// The repositories that a server has listed, by name.
    pub fn list_repositories(&self, answers: Vec<Option<RepositoryItem>>) -> (r: Vec<LiveRepository>)
        ensures
            views(r@) == sorting::sorted::<LiveRepository>(live_ones(answers@)),
    {
        let mut out: Vec<LiveRepository> = Vec::new();
        let mut i: usize = 0;
        assert(views(out@) =~= live_ones(answers@.take(0)));
        while i < answers.len()
            invariant
                i <= answers@.len(),
                views(out@) == live_ones(answers@.take(i as int)),
            decreases answers@.len() - i,
        {
            proof {
                assert(answers@.take(i + 1).drop_last() =~= answers@.take(i as int));
                assert(answers@.take(i + 1).last() == answers@[i as int]);
            }
            match &answers[i] {
                Some(item) => {
                    let mut resource_id = "urc-".to_owned();
                    resource_id.append(encode_hex(item.id.as_slice()).as_str());
                    let ghost before = views(out@);
                    let repository = LiveRepository {
                        resource_id,
                        name: item.name.clone(),
                        description: item.description.clone(),
                        default_branch_id: copy_bytes(&item.default_branch_id),
                        default_branch_name: item.default_branch_name.clone(),
                        creator: item.creator.clone(),
                        created: item.created,
                    };
                    let ghost shown = repository@;
                    out.push(repository);
                    assert(views(out@) =~= before.push(shown));
                    assert(shown == live(item@));
                },
                None => {},
            }
            i = i + 1;
        }
        assert(answers@.take(i as int) =~= answers@);
        sorting::sort(out)
    }

    /// The call that deletes a repository.
    pub fn delete_repository(&self, authentication_token: &str, resource_id: &str) -> (r: Result<
        RepositoryCall,
        String,
    >)
        ensures
            call_outcome(r) == repository_call(authentication_token@, resource_id@),
    {
        match decode_resource_id(resource_id) {
            Ok(repository_id) => Ok(
                RepositoryCall {
                    authorization: bearer_header(authentication_token),
                    repository_id,
                },
            ),
            Err(e) => Err(e),
        }
    }

    /// The calls that read the history of a repository.
    pub fn history(&self, authorization_token: &str, repository: &LiveRepository) -> (r: Result<
        (RepositoryCall, History),
        String,
    >)
        ensures
            match r {
                Ok((call, history)) => repository_call(
                    authorization_token@,
                    repository@.resource_id,
                ) == Ok::<RepositoryCallView, Text>(call@) && history@ == empty_history(),
                Err(e) => repository_call(authorization_token@, repository@.resource_id) == Err::<
                    RepositoryCallView,
                    Text,
                >(e@),
            },
    {
        match self.delete_repository(authorization_token, repository.resource_id.as_str()) {
            Ok(call) => Ok((call, History::new())),
            Err(e) => Err(e),
        }
    }
}

/// What a call on a repository carries: the authorization header, and the identifier of
/// the repository.
#[derive(Debug)]
pub struct RepositoryCall {
    pub authorization: String,
    pub repository_id: Vec<u8>,
}

#[verifier::ext_equal]
pub struct RepositoryCallView {
    pub authorization: Text,
    pub repository_id: Seq<u8>,
}

impl View for RepositoryCall {
    type V = RepositoryCallView;

    open spec fn view(&self) -> RepositoryCallView {
        RepositoryCallView {
            authorization: self.authorization@,
            repository_id: self.repository_id@,
        }
    }
}

pub open spec fn repository_call(token: Text, resource_id: Text) -> Result<
    RepositoryCallView,
    Text,
> {
    match decoded_resource_id(resource_id) {
        Ok(repository_id) => Ok(
            RepositoryCallView { authorization: "Bearer "@ + token, repository_id },
        ),
        Err(e) => Err(e),
    }
}

pub open spec fn call_outcome(r: Result<RepositoryCall, String>) -> Result<
    RepositoryCallView,
    Text,
> {
    match r {
        Ok(call) => Ok(call@),
        Err(e) => Err(e@),
    }
}

fn copy_bytes(bytes: &Vec<u8>) -> (r: Vec<u8>)
    ensures
        r@ == bytes@,
{
    let mut r: Vec<u8> = Vec::new();
    let mut i: usize = 0;
    while i < bytes.len()
        invariant
            i <= bytes@.len(),
            r@ == bytes@.take(i as int),
        decreases bytes@.len() - i,
    {
        r.push(bytes[i]);
        assert(bytes@.take(i + 1) =~= bytes@.take(i as int).push(bytes@[i as int]));
        i = i + 1;
    }
    assert(bytes@.take(i as int) =~= bytes@);
    r
}

/// The place of the repository with an identifier in a list.
pub fn find_repository(repositories: &Vec<LiveRepository>, resource_id: &str) -> (r: Option<usize>)
    ensures
        match r {
            Some(i) => i < repositories@.len() && repositories@[i as int]@.resource_id
                == resource_id@ && forall|j: int|
                0 <= j < i ==> (#[trigger] repositories@[j])@.resource_id != resource_id@,
            None => forall|j: int|
                0 <= j < repositories@.len() ==> (#[trigger] repositories@[j])@.resource_id
                    != resource_id@,
        },
{
    let mut i: usize = 0;
    while i < repositories.len()
        invariant
            i <= repositories@.len(),
            forall|j: int|
                0 <= j < i ==> (#[trigger] repositories@[j])@.resource_id != resource_id@,
        decreases repositories@.len() - i,
    {
        if text::same_text(repositories[i].resource_id.as_str(), resource_id) {
            return Some(i);
        }
        i = i + 1;
    }
    None
}

/// The value of the authorization header for a token.
pub fn bearer_header(token: &str) -> (r: String)
    ensures
        r@ == "Bearer "@ + token@,
{
    let mut r = "Bearer ".to_owned();
    r.append(token);
    r
}

/// What to tell of an error: the status that a server gave, or the error itself.
pub open spec fn error_message(status: Option<(Text, Text)>, error: Text) -> Text {
    match status {
        Some((code, message)) => code + "："@ + message,
        None => error,
    }
}

pub fn grpc_error_message(status: Option<(&str, &str)>, error: &str) -> (r: String)
    ensures
        r@ == error_message(status.deep_view(), error@),
{
    match status {
        Some((code, message)) => {
            let mut r = code.to_owned();
            r.append("：");
            r.append(message);
            r
        },
        None => error.to_owned(),
    }
}

// ---------------------------------------------------------------------------
// History
// ---------------------------------------------------------------------------

/// As many entries of a history are read.
pub const HISTORY_LIMIT: usize = 50;

#[derive(Debug)]
pub struct RevisionHistoryEntry {
    pub branch_name: String,
    pub number: u64,
    pub signature: String,
    pub message: String,
    pub timestamp: u64,
    pub committed_by: String,
}

#[verifier::ext_equal]
pub struct RevisionHistoryEntryView {
    pub branch_name: Text,
    pub number: u64,
    pub signature: Text,
    pub message: Text,
    pub timestamp: u64,
    pub committed_by: Text,
}

impl View for RevisionHistoryEntry {
    type V = RevisionHistoryEntryView;

    open spec fn view(&self) -> RevisionHistoryEntryView {
        RevisionHistoryEntryView {
            branch_name: self.branch_name@,
            number: self.number,
            signature: self.signature@,
            message: self.message@,
            timestamp: self.timestamp,
            committed_by: self.committed_by@,
        }
    }
}

/// Entries rank from the latest to the earliest.
impl Ranked for RevisionHistoryEntry {
    open spec fn before(a: RevisionHistoryEntryView, b: RevisionHistoryEntryView) -> bool {
        a.timestamp > b.timestamp
    }

    fn comes_before(&self, other: &Self) -> (r: bool) {
        self.timestamp > other.timestamp
    }

    proof fn before_asymmetric(a: RevisionHistoryEntryView, b: RevisionHistoryEntryView) {
    }

    proof fn not_before_transitive(
        a: RevisionHistoryEntryView,
        b: RevisionHistoryEntryView,
        c: RevisionHistoryEntryView,
    ) {
    }
}

/// A branch as the server lists it.
#[derive(Debug)]
pub struct BranchItem {
    pub id: Vec<u8>,
    pub name: String,
}

#[verifier::ext_equal]
pub struct BranchItemView {
    pub id: Seq<u8>,
    pub name: Text,
}

impl View for BranchItem {
    type V = BranchItemView;

    open spec fn view(&self) -> BranchItemView {
        BranchItemView { id: self.id@, name: self.name@ }
    }
}

/// A revision as the server lists it.
#[derive(Debug)]
pub struct RevisionItem {
    pub signature: Vec<u8>,
    pub number: u64,
}

#[verifier::ext_equal]
pub struct RevisionItemView {
    pub signature: Seq<u8>,
    pub number: u64,
}

impl View for RevisionItem {
    type V = RevisionItemView;

    open spec fn view(&self) -> RevisionItemView {
        RevisionItemView { signature: self.signature@, number: self.number }
    }
}

/// The details of a revision.
#[derive(Debug)]
pub struct RevisionDetails {
    pub message: String,
    pub timestamp: u64,
    pub committed_by: String,
    pub number: u64,
}

#[verifier::ext_equal]
pub struct RevisionDetailsView {
    pub message: Text,
    pub timestamp: u64,
    pub committed_by: Text,
    pub number: u64,
}

impl View for RevisionDetails {
    type V = RevisionDetailsView;

    open spec fn view(&self) -> RevisionDetailsView {
        RevisionDetailsView {
            message: self.message@,
            timestamp: self.timestamp,
            committed_by: self.committed_by@,
            number: self.number,
        }
    }
}

/// What the server has answered.
#[derive(Debug)]
pub enum HistoryEvent {
    /// The next branch of the repository; the answer may hold none.
    Branch(Option<BranchItem>),
    /// There are no more branches.
    BranchesEnd,
    /// The revisions of the branch that was asked for.
    Revisions(Vec<RevisionItem>),
    /// The details of the revision that was asked for, where the server has them.
    Revision(Option<RevisionDetails>),
}

pub enum HistoryEventView {
    Branch(Option<BranchItemView>),
    BranchesEnd,
    Revisions(Seq<RevisionItemView>),
    Revision(Option<RevisionDetailsView>),
}

impl View for HistoryEvent {
    type V = HistoryEventView;

    open spec fn view(&self) -> HistoryEventView {
        match *self {
            HistoryEvent::Branch(Some(b)) => HistoryEventView::Branch(Some(b@)),
            HistoryEvent::Branch(None) => HistoryEventView::Branch(None),
            HistoryEvent::BranchesEnd => HistoryEventView::BranchesEnd,
            HistoryEvent::Revisions(list) => HistoryEventView::Revisions(views(list@)),
            HistoryEvent::Revision(Some(d)) => HistoryEventView::Revision(Some(d@)),
            HistoryEvent::Revision(None) => HistoryEventView::Revision(None),
        }
    }
}

/// What to ask the server next.
#[derive(Debug)]
pub enum HistoryAction {
    /// The next branch.
    NextBranch,
    /// The revisions of the branch with this identifier.
    ListRevisions(Vec<u8>),
    /// The details of the revision with this signature and number.
    DescribeRevision(Vec<u8>, u64),
    /// Nothing: the history is complete.
    Done,
}

pub enum HistoryActionView {
    NextBranch,
    ListRevisions(Seq<u8>),
    DescribeRevision(Seq<u8>, u64),
    Done,
}

impl View for HistoryAction {
    type V = HistoryActionView;

    open spec fn view(&self) -> HistoryActionView {
        match *self {
            HistoryAction::NextBranch => HistoryActionView::NextBranch,
            HistoryAction::ListRevisions(id) => HistoryActionView::ListRevisions(id@),
            HistoryAction::DescribeRevision(s, n) => HistoryActionView::DescribeRevision(s@, n),
            HistoryAction::Done => HistoryActionView::Done,
        }
    }
}

/// A history while it is read: the entries so far, the branch that is read, and its
/// revisions that are still to be described.
#[derive(Debug)]
pub struct History {
    pub entries: Vec<RevisionHistoryEntry>,
    pub branch_name: String,
    pub todo: Vec<RevisionItem>,
}

#[verifier::ext_equal]
pub struct HistoryView {
    pub entries: Seq<RevisionHistoryEntryView>,
    pub branch_name: Text,
    pub todo: Seq<RevisionItemView>,
}

impl View for History {
    type V = HistoryView;

    open spec fn view(&self) -> HistoryView {
        HistoryView {
            entries: views(self.entries@),
            branch_name: self.branch_name@,
            todo: views(self.todo@),
        }
    }
}

/// The entry for a revision. What the server does not say is left empty, and the number
/// is then that of the list.
pub open spec fn entry_for(
    branch_name: Text,
    item: RevisionItemView,
    details: Option<RevisionDetailsView>,
) -> RevisionHistoryEntryView {
    match details {
        Some(d) => RevisionHistoryEntryView {
            branch_name,
            number: if d.number == 0 {
                item.number
            } else {
                d.number
            },
            signature: hex(item.signature),
            message: d.message,
            timestamp: d.timestamp,
            committed_by: d.committed_by,
        },
        None => RevisionHistoryEntryView {
            branch_name,
            number: item.number,
            signature: hex(item.signature),
            message: Seq::empty(),
            timestamp: 0,
            committed_by: Seq::empty(),
        },
    }
}

/// What to ask once a revision, or the list of them, has been dealt with.
pub open spec fn next_question(h: HistoryView) -> HistoryActionView {
    if h.todo.len() > 0 {
        HistoryActionView::DescribeRevision(h.todo[0].signature, h.todo[0].number)
    } else {
        HistoryActionView::NextBranch
    }
}

pub open spec fn at_most<T>(s: Seq<T>, n: int) -> Seq<T> {
    if s.len() <= n {
        s
    } else {
        s.take(n)
    }
}

/// One step of reading a history: from an answer to the next question.
pub open spec fn history_step(h: HistoryView, event: HistoryEventView) -> (
    HistoryView,
    HistoryActionView,
) {
    match event {
        HistoryEventView::Branch(None) => (h, HistoryActionView::NextBranch),
        HistoryEventView::Branch(Some(branch)) => (
            HistoryView { branch_name: branch.name, ..h },
            HistoryActionView::ListRevisions(branch.id),
        ),
        HistoryEventView::BranchesEnd => (h, HistoryActionView::Done),
        HistoryEventView::Revisions(list) => {
            let next = HistoryView { todo: list, ..h };
            (next, next_question(next))
        },
        HistoryEventView::Revision(details) => if h.todo.len() == 0 {
            (h, next_question(h))
        } else {
            let next = HistoryView {
                entries: h.entries.push(entry_for(h.branch_name, h.todo[0], details)),
                todo: h.todo.skip(1),
                ..h
            };
            (next, next_question(next))
        },
    }
}

/// The most recent entries, the latest first, and at most as many as the limit says.
pub open spec fn finished(h: HistoryView) -> Seq<RevisionHistoryEntryView> {
    at_most(sorting::sorted::<RevisionHistoryEntry>(h.entries), HISTORY_LIMIT as int)
}

/// A history of which nothing has been read.
pub open spec fn empty_history() -> HistoryView {
    HistoryView { entries: Seq::empty(), branch_name: Seq::empty(), todo: Seq::empty() }
}

impl History {
    /// A history of which nothing has been read. The first question is for a branch.
    pub fn new() -> (h: History)
        ensures
            h@ == empty_history(),
    {
        let h = History {
            entries: Vec::new(),
            branch_name: String::new(),
            todo: Vec::new(),
        };
        assert(h@.entries =~= Seq::empty());
        assert(h@.todo =~= Seq::empty());
        h
    }

    fn next_question(&self) -> (a: HistoryAction)
        ensures
            a@ == next_question(self@),
    {
        if self.todo.len() > 0 {
            assert(self@.todo[0] == self.todo@[0]@);
            HistoryAction::DescribeRevision(
                copy_bytes(&self.todo[0].signature),
                self.todo[0].number,
            )
        } else {
            HistoryAction::NextBranch
        }
    }

    /// Takes an answer of the server, and says what to ask next.
    pub fn step(&mut self, event: HistoryEvent) -> (a: HistoryAction)
        ensures
            (final(self)@, a@) == history_step(old(self)@, event@),
    {
        match event {
            HistoryEvent::Branch(None) => HistoryAction::NextBranch,
            HistoryEvent::Branch(Some(branch)) => {
                self.branch_name = branch.name;
                HistoryAction::ListRevisions(branch.id)
            },
            HistoryEvent::BranchesEnd => HistoryAction::Done,
            HistoryEvent::Revisions(list) => {
                self.todo = list;
                self.next_question()
            },
            HistoryEvent::Revision(details) => {
                if self.todo.len() > 0 {
                    let ghost before = self@;
                    let item = self.todo.remove(0);
                    assert(views(self.todo@) =~= before.todo.skip(1));
                    assert(item@ == before.todo[0]);
                    let signature = encode_hex(item.signature.as_slice());
                    let branch_name = self.branch_name.clone();
                    let entry = match details {
                        Some(d) => RevisionHistoryEntry {
                            branch_name,
                            number: if d.number == 0 {
                                item.number
                            } else {
                                d.number
                            },
                            signature,
                            message: d.message,
                            timestamp: d.timestamp,
                            committed_by: d.committed_by,
                        },
                        None => {
                            let entry = RevisionHistoryEntry {
                                branch_name,
                                number: item.number,
                                signature,
                                message: String::new(),
                                timestamp: 0,
                                committed_by: String::new(),
                            };
                            assert(entry@.message =~= Seq::empty());
                            assert(entry@.committed_by =~= Seq::empty());
                            entry
                        },
                    };
                    let ghost shown = entry@;
                    self.entries.push(entry);
                    assert(views(self.entries@) =~= before.entries.push(shown));
                }
                self.next_question()
            },
        }
    }

    /// The most recent entries, the latest first.
    pub fn finish(self) -> (r: Vec<RevisionHistoryEntry>)
        ensures
            views(r@) == finished(self@),
    {
        let mut r = sorting::sort(self.entries);
        let ghost all = views(r@);
        if r.len() > HISTORY_LIMIT {
            r.truncate(HISTORY_LIMIT);
        }
        assert(views(r@) =~= at_most(all, HISTORY_LIMIT as int));
        r
    }
}

/// A branch of a server, with its revisions and what the server says of each.
pub struct BranchContents {
    pub branch: BranchItemView,
    pub revisions: Seq<(RevisionItemView, Option<RevisionDetailsView>)>,
}

pub open spec fn revision_items(
    revisions: Seq<(RevisionItemView, Option<RevisionDetailsView>)>,
) -> Seq<RevisionItemView> {
    revisions.map_values(|r: (RevisionItemView, Option<RevisionDetailsView>)| r.0)
}

pub open spec fn branch_entries(
    branch_name: Text,
    revisions: Seq<(RevisionItemView, Option<RevisionDetailsView>)>,
) -> Seq<RevisionHistoryEntryView> {
    revisions.map_values(
        |r: (RevisionItemView, Option<RevisionDetailsView>)| entry_for(branch_name, r.0, r.1),
    )
}

/// The entries of all branches, in the order in which the server lists them.
pub open spec fn all_entries(server: Seq<Option<BranchContents>>) -> Seq<RevisionHistoryEntryView>
    decreases server.len(),
{
    if server.len() == 0 {
        Seq::empty()
    } else {
        match server[0] {
            Some(b) => branch_entries(b.branch.name, b.revisions) + all_entries(server.skip(1)),
            None => all_entries(server.skip(1)),
        }
    }
}

/// What comes of asking a server with these branches whatever `action` and the steps
/// after it say; `rest` are the revisions of the branch that is being read.
pub open spec fn history_read(
    h: HistoryView,
    action: HistoryActionView,
    server: Seq<Option<BranchContents>>,
    rest: Seq<(RevisionItemView, Option<RevisionDetailsView>)>,
) -> Seq<RevisionHistoryEntryView>
    decreases server.len(), rest.len(),
{
    match action {
        HistoryActionView::NextBranch => if server.len() == 0 {
            finished(history_step(h, HistoryEventView::BranchesEnd).0)
        } else {
            match server[0] {
                None => {
                    let (next, then) = history_step(h, HistoryEventView::Branch(None));
                    history_read(next, then, server.skip(1), Seq::empty())
                },
                Some(b) => {
                    let (named, _) = history_step(h, HistoryEventView::Branch(Some(b.branch)));
                    let (next, then) = history_step(
                        named,
                        HistoryEventView::Revisions(revision_items(b.revisions)),
                    );
                    history_read(next, then, server.skip(1), b.revisions)
                },
            }
        },
        HistoryActionView::DescribeRevision(_, _) => if rest.len() == 0 {
            finished(h)
        } else {
            let (next, then) = history_step(h, HistoryEventView::Revision(rest[0].1));
            history_read(next, then, server, rest.skip(1))
        },
        _ => finished(h),
    }
}

proof fn lemma_history_read(
    h: HistoryView,
    server: Seq<Option<BranchContents>>,
    rest: Seq<(RevisionItemView, Option<RevisionDetailsView>)>,
)
    requires
        h.todo == revision_items(rest),
    ensures
        history_read(h, next_question(h), server, rest) == at_most(
            sorting::sorted::<RevisionHistoryEntry>(
                h.entries + branch_entries(h.branch_name, rest) + all_entries(server),
            ),
            HISTORY_LIMIT as int,
        ),
    decreases server.len(), rest.len(),
{
    let wanted = h.entries + branch_entries(h.branch_name, rest) + all_entries(server);
    if h.todo.len() > 0 {
        let items = revision_items(rest);
        assert(items[0] == rest[0].0);
        let (next, then) = history_step(h, HistoryEventView::Revision(rest[0].1));
        assert(revision_items(rest.skip(1)) =~= items.skip(1));
        lemma_history_read(next, server, rest.skip(1));
        assert(next.entries + branch_entries(h.branch_name, rest.skip(1)) + all_entries(server)
            =~= wanted);
    } else {
        assert(rest.len() == 0);
        assert(wanted =~= h.entries + all_entries(server));
        if server.len() == 0 {
            assert(wanted =~= h.entries);
        } else {
            match server[0] {
                None => {
                    assert(h.todo =~= revision_items(Seq::empty()));
                    lemma_history_read(h, server.skip(1), Seq::empty());
                    assert(h.entries + branch_entries(h.branch_name, Seq::empty()) + all_entries(
                        server.skip(1),
                    ) =~= wanted);
                },
                Some(b) => {
                    let (named, _) = history_step(h, HistoryEventView::Branch(Some(b.branch)));
                    let (next, then) = history_step(
                        named,
                        HistoryEventView::Revisions(revision_items(b.revisions)),
                    );
                    lemma_history_read(next, server.skip(1), b.revisions);
                    assert(next.entries + branch_entries(b.branch.name, b.revisions) + all_entries(
                        server.skip(1),
                    ) =~= wanted);
                },
            }
        }
    }
}

/// Reading a server's history to the end gives the most recent of all its revisions, as
/// many as there are up to the limit, from the latest to the earliest: none that is left
/// out is later than one that is shown.
pub proof fn the_most_recent_revisions_are_shown(server: Seq<Option<BranchContents>>)
    ensures
        ({
            let all = all_entries(server);
            let read = history_read(
                empty_history(),
                HistoryActionView::NextBranch,
                server,
                Seq::empty(),
            );
            &&& read == at_most(
                sorting::sorted::<RevisionHistoryEntry>(all),
                HISTORY_LIMIT as int,
            )
            &&& read.len() == if all.len() <= HISTORY_LIMIT {
                all.len()
            } else {
                HISTORY_LIMIT as nat
            }
            &&& read.to_multiset().subset_of(all.to_multiset())
            &&& forall|i: int, j: int|
                0 <= i < j < read.len() ==> (#[trigger] read[i]).timestamp >= (
                #[trigger] read[j]).timestamp
            &&& forall|e: RevisionHistoryEntryView, i: int|
                read.to_multiset().count(e) < (#[trigger] all.to_multiset().count(e)) && 0 <= i
                    < read.len() ==> (#[trigger] read[i]).timestamp >= e.timestamp
        }),
{
    broadcast use vstd::seq_lib::group_to_multiset_ensures;

    let start = empty_history();
    let none = Seq::<(RevisionItemView, Option<RevisionDetailsView>)>::empty();
    let all = all_entries(server);
    assert(revision_items(none) =~= Seq::empty());
    lemma_history_read(start, server, none);
    assert(start.entries + branch_entries(start.branch_name, none) + all =~= all);
    sorting::sorting_permutes_and_orders::<RevisionHistoryEntry>(all);
    let sorted = sorting::sorted::<RevisionHistoryEntry>(all);
    let read = history_read(start, HistoryActionView::NextBranch, server, none);
    let left = sorted.skip(read.len() as int);
    assert(sorted =~= read + left);
    vstd::seq_lib::lemma_multiset_commutative(read, left);
    assert forall|i: int, j: int| 0 <= i < j < read.len() implies (#[trigger] read[i]).timestamp
        >= (#[trigger] read[j]).timestamp by {
        assert(!RevisionHistoryEntry::before(sorted[j], sorted[i]));
    }
    assert forall|e: RevisionHistoryEntryView, i: int|
        read.to_multiset().count(e) < (#[trigger] all.to_multiset().count(e)) && 0 <= i
            < read.len() implies (#[trigger] read[i]).timestamp >= e.timestamp by {
        assert(left.to_multiset().count(e) > 0);
        assert(left.contains(e));
        let j = choose|j: int| 0 <= j < left.len() && left[j] == e;
        assert(sorted[j + read.len()] == e);
        assert(!RevisionHistoryEntry::before(sorted[j + read.len()], sorted[i]));
    }
}

} // verus!
