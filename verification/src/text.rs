//! Text as sequences of characters: trimming, splitting, searching, folding of
//! ASCII case, and the ordering of texts by code point.

use vstd::prelude::*;
use vstd::string::*;
use vstd::utf8::*;

verus! {

/// A text is the sequence of its characters.
pub type Text = Seq<char>;

/// `String::push` appends one character to the end of the text.
pub assume_specification[ String::push ](s: &mut String, c: char)
    ensures
        final(s)@ == old(s)@.push(c),
;

/// The characters of `s`, in order.
pub fn chars_of(s: &str) -> (v: Vec<char>)
    ensures
        v@ == s@,
{
    let mut v: Vec<char> = Vec::new();
    for c in it: s.chars()
        invariant
            v@ == s@.take(it.index()),
            it.seq() == s@,
    {
        v.push(c);
    }
    v
}

/// The text made of the characters of `v` from `from` up to `to`.
pub fn text_of(v: &Vec<char>, from: usize, to: usize) -> (s: String)
    requires
        from <= to <= v@.len(),
    ensures
        s@ == v@.subrange(from as int, to as int),
{
    let mut s = String::new();
    let mut i = from;
    while i < to
        invariant
            from <= i <= to <= v@.len(),
            s@ == v@.subrange(from as int, i as int),
        decreases to - i,
    {
        s.push(v[i]);
        i = i + 1;
    }
    s
}

pub open spec fn ascii_lower(c: char) -> char {
    if 'A' <= c <= 'Z' {
        ((c as u8) + 32) as char
    } else {
        c
    }
}

pub fn to_ascii_lower(c: char) -> (r: char)
    ensures
        r == ascii_lower(c),
{
    if 'A' <= c && c <= 'Z' {
        ((c as u8) + 32) as char
    } else {
        c
    }
}

/// Whether `a` and `b` are the same characters in the same order.
pub fn same_text(a: &str, b: &str) -> (r: bool)
    ensures
        r == (a@ == b@),
{
    let x = a.as_bytes();
    let y = b.as_bytes();
    if x.len() != y.len() {
        return false;
    }
    let mut i: usize = 0;
    while i < x.len()
        invariant
            i <= x@.len(),
            x@ == a.spec_bytes(),
            y@ == b.spec_bytes(),
            x@.len() == y@.len(),
            x@.take(i as int) == y@.take(i as int),
        decreases x@.len() - i,
    {
        if x[i] != y[i] {
            return false;
        }
        assert(x@.take(i + 1) == x@.take(i as int).push(x@[i as int]));
        assert(y@.take(i + 1) == y@.take(i as int).push(y@[i as int]));
        i = i + 1;
    }
    proof {
        assert(x@.take(i as int) == x@);
        assert(y@.take(i as int) == y@);
        encode_utf8_decode_utf8(a@);
        encode_utf8_decode_utf8(b@);
    }
    true
}

// ---------------------------------------------------------------------------
// White space
// ---------------------------------------------------------------------------

/// The characters with the Unicode property `White_Space`.
pub open spec fn is_white_space(c: char) -> bool {
    let n = c as u32;
    ||| 0x9 <= n <= 0xd
    ||| n == 0x20
    ||| n == 0x85
    ||| n == 0xa0
    ||| n == 0x1680
    ||| 0x2000 <= n <= 0x200a
    ||| n == 0x2028
    ||| n == 0x2029
    ||| n == 0x202f
    ||| n == 0x205f
    ||| n == 0x3000
}

pub fn white_space(c: char) -> (r: bool)
    ensures
        r == is_white_space(c),
{
    let n: u32 = c as u32;
    (0x9 <= n && n <= 0xd) || n == 0x20 || n == 0x85 || n == 0xa0 || n == 0x1680 || (0x2000 <= n
        && n <= 0x200a) || n == 0x2028 || n == 0x2029 || n == 0x202f || n == 0x205f || n == 0x3000
}

pub open spec fn trimmed_start(s: Text) -> Text
    decreases s.len(),
{
    if s.len() > 0 && is_white_space(s[0]) {
        trimmed_start(s.skip(1))
    } else {
        s
    }
}

pub open spec fn trimmed_end(s: Text) -> Text
    decreases s.len(),
{
    if s.len() > 0 && is_white_space(s.last()) {
        trimmed_end(s.drop_last())
    } else {
        s
    }
}

/// `s` without its leading and trailing white space.
pub open spec fn trimmed(s: Text) -> Text {
    trimmed_end(trimmed_start(s))
}

/// Trimming leaves a piece of the text, and white space only outside of it.
pub(crate) proof fn lemma_trimmed(s: Text)
    ensures
        trimmed(s).len() <= s.len(),
        trimmed(s).len() > 0 ==> !is_white_space(trimmed(s)[0]) && !is_white_space(
            trimmed(s).last(),
        ),
        forall|c: char| #[trigger] trimmed(s).contains(c) ==> s.contains(c),
{
    lemma_trimmed_start(s);
    lemma_trimmed_end(trimmed_start(s));
}

proof fn lemma_trimmed_start(s: Text)
    ensures
        trimmed_start(s).len() <= s.len(),
        trimmed_start(s).len() > 0 ==> !is_white_space(trimmed_start(s)[0]),
        forall|c: char| #[trigger] trimmed_start(s).contains(c) ==> s.contains(c),
    decreases s.len(),
{
    if s.len() > 0 && is_white_space(s[0]) {
        lemma_trimmed_start(s.skip(1));
        assert forall|c: char| #[trigger] trimmed_start(s).contains(c) implies s.contains(c) by {
            let i = choose|i: int| 0 <= i < s.skip(1).len() && s.skip(1)[i] == c;
            assert(s[i + 1] == c);
        }
    }
}

proof fn lemma_trimmed_end(s: Text)
    ensures
        trimmed_end(s).len() <= s.len(),
        trimmed_end(s).len() > 0 ==> trimmed_end(s)[0] == s[0] && !is_white_space(
            trimmed_end(s).last(),
        ),
        forall|c: char| #[trigger] trimmed_end(s).contains(c) ==> s.contains(c),
    decreases s.len(),
{
    if s.len() > 0 && is_white_space(s.last()) {
        lemma_trimmed_end(s.drop_last());
        assert forall|c: char| #[trigger] trimmed_end(s).contains(c) implies s.contains(c) by {
            let i = choose|i: int| 0 <= i < s.drop_last().len() && s.drop_last()[i] == c;
            assert(s[i] == c);
        }
    }
}

/// `s` without its leading and trailing white space.
pub fn trim(s: &str) -> (r: String)
    ensures
        r@ == trimmed(s@),
{
    let v = chars_of(s);
    let mut from: usize = 0;
    assert(v@.skip(0) == v@);
    while from < v.len() && white_space(v[from])
        invariant
            from <= v@.len(),
            trimmed_start(v@) == trimmed_start(v@.skip(from as int)),
        decreases v@.len() - from,
    {
        assert(v@.skip(from as int).skip(1) == v@.skip(from + 1));
        from = from + 1;
    }
    let mut to: usize = v.len();
    assert(v@.subrange(from as int, to as int) == v@.skip(from as int));
    while from < to && white_space(v[to - 1])
        invariant
            from <= to <= v@.len(),
            trimmed_end(trimmed_start(v@)) == trimmed_end(v@.subrange(from as int, to as int)),
        decreases to - from,
    {
        assert(v@.subrange(from as int, to as int).drop_last() == v@.subrange(
            from as int,
            to - 1,
        ));
        to = to - 1;
    }
    text_of(&v, from, to)
}

/// `s` without the slashes at its end.
pub open spec fn without_trailing_slashes(s: Text) -> Text
    decreases s.len(),
{
    if s.len() > 0 && s.last() == '/' {
        without_trailing_slashes(s.drop_last())
    } else {
        s
    }
}

pub fn strip_trailing_slashes(s: &str) -> (r: String)
    ensures
        r@ == without_trailing_slashes(s@),
{
    let v = chars_of(s);
    let mut to: usize = v.len();
    assert(v@.subrange(0, to as int) == v@);
    while 0 < to && v[to - 1] == '/'
        invariant
            to <= v@.len(),
            without_trailing_slashes(v@) == without_trailing_slashes(v@.subrange(0, to as int)),
        decreases to,
    {
        assert(v@.subrange(0, to as int).drop_last() == v@.subrange(0, to - 1));
        to = to - 1;
    }
    text_of(&v, 0, to)
}

// ---------------------------------------------------------------------------
// ASCII case
// ---------------------------------------------------------------------------

/// `s` with the ASCII capitals made small.
pub open spec fn folded(s: Text) -> Text {
    s.map_values(|c: char| ascii_lower(c))
}

/// Whether `a` and `b` differ at most in the case of ASCII letters.
pub open spec fn same_name(a: Text, b: Text) -> bool {
    folded(a) == folded(b)
}

pub fn eq_ignore_ascii_case(a: &str, b: &str) -> (r: bool)
    ensures
        r == same_name(a@, b@),
{
    let x = chars_of(a);
    let y = chars_of(b);
    if x.len() != y.len() {
        assert(folded(a@).len() != folded(b@).len());
        return false;
    }
    let mut i: usize = 0;
    while i < x.len()
        invariant
            i <= x@.len(),
            x@ == a@,
            y@ == b@,
            x@.len() == y@.len(),
            forall|j: int| 0 <= j < i ==> ascii_lower(#[trigger] x@[j]) == ascii_lower(y@[j]),
        decreases x@.len() - i,
    {
        if to_ascii_lower(x[i]) != to_ascii_lower(y[i]) {
            assert(folded(a@)[i as int] != folded(b@)[i as int]);
            return false;
        }
        i = i + 1;
    }
    assert(folded(a@) =~= folded(b@));
    true
}

// ---------------------------------------------------------------------------
// Prefixes, pieces and places
// ---------------------------------------------------------------------------

pub fn starts_with(s: &str, prefix: &str) -> (r: bool)
    ensures
        r == prefix@.is_prefix_of(s@),
{
    let v = chars_of(s);
    let p = chars_of(prefix);
    matches_at(&v, 0, &p)
}

/// Whether `p` stands in `s` at the place `i`.
pub open spec fn stands_at(s: Text, i: int, p: Text) -> bool {
    &&& 0 <= i
    &&& i + p.len() <= s.len()
    &&& s.subrange(i, i + p.len()) == p
}

/// Whether `p` stands anywhere in `s`.
pub open spec fn contains_text(s: Text, p: Text) -> bool {
    exists|i: int| stands_at(s, i, p)
}

fn matches_at(v: &Vec<char>, at: usize, p: &Vec<char>) -> (r: bool)
    requires
        at <= v@.len(),
    ensures
        r == stands_at(v@, at as int, p@),
        at == 0 ==> r == p@.is_prefix_of(v@),
{
    let n = v.len();
    if p.len() > n - at {
        return false;
    }
    let mut i: usize = 0;
    while i < p.len()
        invariant
            i <= p@.len(),
            at + p@.len() <= n,
            n == v@.len(),
            v@.subrange(at as int, at + i) == p@.take(i as int),
        decreases p@.len() - i,
    {
        if v[at + i] != p[i] {
            assert(v@.subrange(at as int, at + p@.len())[i as int] != p@[i as int]);
            return false;
        }
        assert(v@.subrange(at as int, at + i + 1) == v@.subrange(at as int, at + i).push(
            v@[at + i],
        ));
        assert(p@.take(i + 1) == p@.take(i as int).push(p@[i as int]));
        i = i + 1;
    }
    assert(p@.take(p@.len() as int) == p@);
    assert(v@.subrange(at as int, at + p@.len()) == p@);
    true
}

/// The first place at which `p` stands in `v`.
fn first_place(v: &Vec<char>, p: &Vec<char>) -> (r: Option<usize>)
    ensures
        match r {
            Some(i) => stands_at(v@, i as int, p@) && forall|j: int|
                0 <= j < i ==> !stands_at(v@, j, p@),
            None => forall|j: int| !stands_at(v@, j, p@),
        },
{
    let mut i: usize = 0;
    loop
        invariant
            i <= v@.len(),
            forall|j: int| 0 <= j < i ==> !stands_at(v@, j, p@),
        decreases v@.len() - i,
    {
        if matches_at(v, i, p) {
            return Some(i);
        }
        if i == v.len() {
            return None;
        }
        i = i + 1;
    }
}

pub fn contains(s: &str, p: &str) -> (r: bool)
    ensures
        r == contains_text(s@, p@),
{
    let v = chars_of(s);
    let q = chars_of(p);
    match first_place(&v, &q) {
        Some(i) => {
            assert(stands_at(s@, i as int, p@));
            true
        },
        None => false,
    }
}

/// What follows the first `p` in `s`, where there is one.
pub open spec fn after_first(s: Text, p: Text) -> Option<Text> {
    if contains_text(s, p) {
        let i = choose|i: int|
            stands_at(s, i, p) && forall|j: int| 0 <= j < i ==> !stands_at(s, j, p);
        Some(s.skip(i + p.len()))
    } else {
        None
    }
}

/// The first place of `p` in `s` fixes what follows it.
pub(crate) proof fn lemma_after_first(s: Text, p: Text, i: int)
    requires
        stands_at(s, i, p),
        forall|j: int| 0 <= j < i ==> !stands_at(s, j, p),
    ensures
        after_first(s, p) == Some(s.skip(i + p.len())),
{
    let k = choose|k: int|
        stands_at(s, k, p) && forall|j: int| 0 <= j < k ==> !stands_at(s, j, p);
    assert(k == i) by {
        if k < i {
            assert(!stands_at(s, k, p));
        }
        if i < k {
            assert(!stands_at(s, i, p));
        }
    }
}

pub fn text_after(s: &str, p: &str) -> (r: Option<String>)
    ensures
        r.deep_view() == after_first(s@, p@),
{
    let v = chars_of(s);
    let q = chars_of(p);
    match first_place(&v, &q) {
        Some(i) => {
            proof {
                lemma_after_first(s@, p@, i as int);
                assert(v@.subrange(i + q@.len(), v@.len() as int) == v@.skip(i + q@.len()));
            }
            let n = v.len();
            Some(text_of(&v, i + q.len(), n))
        },
        None => None,
    }
}

/// What follows the prefix `p` of `s`, where `s` begins with it.
pub open spec fn after_prefix(s: Text, p: Text) -> Option<Text> {
    if p.is_prefix_of(s) {
        Some(s.skip(p.len() as int))
    } else {
        None
    }
}

pub fn strip_prefix(s: &str, p: &str) -> (r: Option<String>)
    ensures
        r.deep_view() == after_prefix(s@, p@),
{
    let v = chars_of(s);
    let q = chars_of(p);
    if matches_at(&v, 0, &q) {
        assert(v@.subrange(q@.len() as int, v@.len() as int) == v@.skip(q@.len() as int));
        Some(text_of(&v, q.len(), v.len()))
    } else {
        None
    }
}

/// The pieces of `s` between the separators: one more than there are separators.
pub open spec fn pieces(s: Text, separator: char) -> Seq<Text>
    decreases s.len(),
{
    if s.len() == 0 {
        seq![Seq::<char>::empty()]
    } else {
        let before = pieces(s.drop_last(), separator);
        if s.last() == separator {
            before.push(Seq::empty())
        } else {
            before.update(before.len() - 1, before.last().push(s.last()))
        }
    }
}

pub(crate) proof fn lemma_pieces_nonempty(s: Text, separator: char)
    ensures
        pieces(s, separator).len() > 0,
    decreases s.len(),
{
    if s.len() > 0 {
        lemma_pieces_nonempty(s.drop_last(), separator);
    }
}

pub fn split(s: &str, separator: char) -> (r: Vec<String>)
    ensures
        r.deep_view() == pieces(s@, separator),
        r@.len() > 0,
{
    let v = chars_of(s);
    let mut done: Vec<String> = Vec::new();
    let mut current = String::new();
    let mut i: usize = 0;
    assert(v@.take(0) == Seq::<char>::empty());
    assert(done.deep_view().push(current@) == pieces(v@.take(0), separator));
    while i < v.len()
        invariant
            i <= v@.len(),
            v@ == s@,
            done.deep_view().push(current@) == pieces(v@.take(i as int), separator),
        decreases v@.len() - i,
    {
        let c = v[i];
        let ghost before = done.deep_view().push(current@);
        proof {
            assert(v@.take(i + 1).drop_last() == v@.take(i as int));
            assert(v@.take(i + 1).last() == c);
        }
        if c == separator {
            let ghost old_done = done.deep_view();
            done.push(current);
            current = String::new();
            assert(done.deep_view() == before);
        } else {
            current.push(c);
            assert(done.deep_view().push(current@) == before.update(
                before.len() - 1,
                before.last().push(c),
            ));
        }
        i = i + 1;
    }
    assert(v@.take(i as int) == v@);
    let ghost all = done.deep_view().push(current@);
    done.push(current);
    assert(done.deep_view() == all);
    done
}

/// The piece of `s` before the first separator.
pub fn first_piece(s: &str, separator: char) -> (r: String)
    ensures
        r@ == pieces(s@, separator)[0],
{
    let all = split(s, separator);
    assert(all.deep_view()[0] == all@[0]@);
    all[0].clone()
}

pub open spec fn decimal_digit(n: int) -> char {
    (0x30 + n) as char
}

/// A number in decimal.
pub open spec fn decimal(n: nat) -> Text
    decreases n,
{
    if n < 10 {
        seq![decimal_digit(n as int)]
    } else {
        decimal(n / 10).push(decimal_digit(n as int % 10))
    }
}

pub fn write_decimal(n: u64) -> (r: String)
    ensures
        r@ == decimal(n as nat),
    decreases n,
{
    let digit: u8 = (n % 10) as u8;
    let c = (0x30 + digit) as char;
    if n < 10 {
        let mut r = String::new();
        r.push(c);
        assert(r@ =~= seq![decimal_digit(n as int)]);
        r
    } else {
        let mut r = write_decimal(n / 10);
        r.push(c);
        r
    }
}

/// The texts one after the other, with `separator` between them.
pub open spec fn joined(parts: Seq<Text>, separator: Text) -> Text
    decreases parts.len(),
{
    if parts.len() == 0 {
        Seq::empty()
    } else if parts.len() == 1 {
        parts[0]
    } else {
        joined(parts.drop_last(), separator) + separator + parts.last()
    }
}

pub fn join(parts: &Vec<String>, separator: &str) -> (r: String)
    ensures
        r@ == joined(parts.deep_view(), separator@),
{
    let ghost all = parts.deep_view();
    let mut r = String::new();
    let mut i: usize = 0;
    assert(r@ =~= joined(all.take(0), separator@));
    while i < parts.len()
        invariant
            i <= parts@.len(),
            all == parts.deep_view(),
            r@ == joined(all.take(i as int), separator@),
        decreases parts@.len() - i,
    {
        proof {
            assert(all.take(i + 1).drop_last() =~= all.take(i as int));
            assert(all.take(i + 1).last() == parts@[i as int]@);
        }
        if i > 0 {
            r.append(separator);
        }
        let ghost before = r@;
        r.append(parts[i].as_str());
        assert(i == 0 ==> before + parts@[i as int]@ =~= parts@[i as int]@);
        i = i + 1;
    }
    assert(all.take(i as int) =~= all);
    r
}

// ---------------------------------------------------------------------------
// Order
// ---------------------------------------------------------------------------

/// Whether `a` comes before `b` in the lexicographic order of code points, which
/// is the order of the UTF-8 bytes as well.
pub open spec fn text_less(a: Text, b: Text) -> bool
    decreases a.len(),
{
    if b.len() == 0 {
        false
    } else if a.len() == 0 {
        true
    } else if a[0] == b[0] {
        text_less(a.skip(1), b.skip(1))
    } else {
        a[0] < b[0]
    }
}

pub(crate) proof fn lemma_text_less_irreflexive(a: Text)
    ensures
        !text_less(a, a),
    decreases a.len(),
{
    if a.len() > 0 {
        lemma_text_less_irreflexive(a.skip(1));
    }
}

pub(crate) proof fn lemma_text_less_transitive(a: Text, b: Text, c: Text)
    requires
        text_less(a, b),
        text_less(b, c),
    ensures
        text_less(a, c),
    decreases a.len(),
{
    if a.len() > 0 && b.len() > 0 && c.len() > 0 && a[0] == b[0] && b[0] == c[0] {
        lemma_text_less_transitive(a.skip(1), b.skip(1), c.skip(1));
    }
}

pub(crate) proof fn lemma_text_less_total(a: Text, b: Text)
    ensures
        a == b || text_less(a, b) || text_less(b, a),
    decreases a.len(),
{
    if a.len() == 0 {
        if b.len() == 0 {
            assert(a =~= b);
        }
    } else if b.len() > 0 && a[0] == b[0] {
        lemma_text_less_total(a.skip(1), b.skip(1));
        if a.skip(1) == b.skip(1) {
            assert(a =~= seq![a[0]] + a.skip(1));
            assert(b =~= seq![b[0]] + b.skip(1));
        }
    }
}

pub(crate) proof fn lemma_text_less_asymmetric(a: Text, b: Text)
    requires
        text_less(a, b),
    ensures
        !text_less(b, a),
{
    if text_less(b, a) {
        lemma_text_less_transitive(a, b, a);
        lemma_text_less_irreflexive(a);
    }
}

pub(crate) proof fn lemma_not_less_transitive(a: Text, b: Text, c: Text)
    requires
        !text_less(a, b),
        !text_less(b, c),
    ensures
        !text_less(a, c),
{
    lemma_text_less_total(a, b);
    lemma_text_less_total(b, c);
    if text_less(a, c) && a != b && b != c {
        lemma_text_less_transitive(c, b, a);
        lemma_text_less_asymmetric(a, c);
    }
}

pub fn chars_less(x: &Vec<char>, y: &Vec<char>) -> (r: bool)
    ensures
        r == text_less(x@, y@),
{
    let mut i: usize = 0;
    assert(x@.skip(0) == x@);
    assert(y@.skip(0) == y@);
    while i < x.len() && i < y.len()
        invariant
            i <= x@.len(),
            i <= y@.len(),
            text_less(x@, y@) == text_less(x@.skip(i as int), y@.skip(i as int)),
        decreases x@.len() - i,
    {
        if x[i] != y[i] {
            return x[i] < y[i];
        }
        assert(x@.skip(i as int).skip(1) == x@.skip(i + 1));
        assert(y@.skip(i as int).skip(1) == y@.skip(i + 1));
        i = i + 1;
    }
    i < y.len()
}

/// Whether `a` comes before `b` by code points.
pub fn is_less(a: &str, b: &str) -> (r: bool)
    ensures
        r == text_less(a@, b@),
{
    let x = chars_of(a);
    let y = chars_of(b);
    chars_less(&x, &y)
}

/// The characters of `s` with the ASCII capitals made small.
pub fn folded_chars(s: &str) -> (v: Vec<char>)
    ensures
        v@ == folded(s@),
{
    let x = chars_of(s);
    let mut v: Vec<char> = Vec::new();
    let mut i: usize = 0;
    while i < x.len()
        invariant
            i <= x@.len(),
            x@ == s@,
            v@ == folded(s@).take(i as int),
        decreases x@.len() - i,
    {
        v.push(to_ascii_lower(x[i]));
        assert(folded(s@).take(i + 1) == folded(s@).take(i as int).push(folded(s@)[i as int]));
        i = i + 1;
    }
    assert(folded(s@).take(i as int) == folded(s@));
    v
}

// ---------------------------------------------------------------------------
// Sets of texts, in ascending order
// ---------------------------------------------------------------------------

pub open spec fn ascending(s: Seq<Text>) -> bool {
    forall|i: int, j: int| 0 <= i < j < s.len() ==> text_less(#[trigger] s[i], #[trigger] s[j])
}

/// The texts of a finite set, each once, in ascending order.
pub open spec fn in_order(elements: Set<Text>) -> Seq<Text> {
    choose|s: Seq<Text>| ascending(s) && s.to_set() == elements
}

/// There is only one way to put a set of texts in ascending order.
pub(crate) proof fn lemma_ascending_unique(a: Seq<Text>, b: Seq<Text>)
    requires
        ascending(a),
        ascending(b),
        a.to_set() == b.to_set(),
    ensures
        a == b,
    decreases a.len(),
{
    if a.len() == 0 {
        if b.len() > 0 {
            assert(b.to_set().contains(b[0]));
            assert(a.to_set().contains(b[0]));
        }
        assert(a =~= b);
    } else {
        assert(a.to_set().contains(a.last()));
        assert(b.contains(a.last()));
        let k = choose|k: int| 0 <= k < b.len() && b[k] == a.last();
        assert(b.to_set().contains(b.last()));
        assert(a.contains(b.last()));
        let m = choose|m: int| 0 <= m < a.len() && a[m] == b.last();
        if k != b.len() - 1 {
            assert(text_less(b[k], b[b.len() - 1]));
            if m != a.len() - 1 {
                assert(text_less(a[m], a[a.len() - 1]));
                lemma_text_less_transitive(a.last(), b.last(), a.last());
            }
            lemma_text_less_irreflexive(a.last());
        }
        assert(a.last() == b.last());
        let x = a.drop_last();
        let y = b.drop_last();
        assert(x.to_set() =~= y.to_set()) by {
            assert forall|t: Text| x.to_set().contains(t) implies y.to_set().contains(t) by {
                let i = choose|i: int| 0 <= i < x.len() && x[i] == t;
                assert(a[i] == t);
                assert(a.to_set().contains(t));
                assert(b.contains(t));
                let j = choose|j: int| 0 <= j < b.len() && b[j] == t;
                if j == b.len() - 1 {
                    assert(text_less(a[i], a[a.len() - 1]));
                    lemma_text_less_irreflexive(t);
                }
                assert(y[j] == t);
            }
            assert forall|t: Text| y.to_set().contains(t) implies x.to_set().contains(t) by {
                let i = choose|i: int| 0 <= i < y.len() && y[i] == t;
                assert(b[i] == t);
                assert(b.to_set().contains(t));
                assert(a.contains(t));
                let j = choose|j: int| 0 <= j < a.len() && a[j] == t;
                if j == a.len() - 1 {
                    assert(text_less(b[i], b[b.len() - 1]));
                    lemma_text_less_irreflexive(t);
                }
                assert(x[j] == t);
            }
        }
        lemma_ascending_unique(x, y);
        assert(a =~= x.push(a.last()));
        assert(b =~= y.push(b.last()));
    }
}

/// An ascending sequence is its set, put in order.
pub(crate) proof fn lemma_in_order(s: Seq<Text>)
    requires
        ascending(s),
    ensures
        in_order(s.to_set()) == s,
{
    let t = in_order(s.to_set());
    assert(ascending(t) && t.to_set() == s.to_set());
    lemma_ascending_unique(t, s);
}

/// `item` put into an ascending sequence that does not hold it.
spec fn with_text(s: Seq<Text>, item: Text) -> Seq<Text>
    decreases s.len(),
{
    if s.len() > 0 && text_less(item, s.last()) {
        with_text(s.drop_last(), item).push(s.last())
    } else {
        s.push(item)
    }
}

proof fn lemma_with_text(s: Seq<Text>, item: Text)
    requires
        ascending(s),
        !s.contains(item),
    ensures
        ascending(with_text(s, item)),
        forall|t: Text| #[trigger]
            with_text(s, item).contains(t) <==> s.contains(t) || t == item,
    decreases s.len(),
{
    let all = with_text(s, item);
    if s.len() > 0 && text_less(item, s.last()) {
        let init = s.drop_last();
        assert(!init.contains(item)) by {
            if init.contains(item) {
                let k = choose|k: int| 0 <= k < init.len() && init[k] == item;
                assert(s[k] == item);
            }
        }
        lemma_with_text(init, item);
        let head = with_text(init, item);
        assert forall|i: int, j: int| 0 <= i < j < all.len() implies text_less(
            #[trigger] all[i],
            #[trigger] all[j],
        ) by {
            if j == head.len() {
                assert(head.contains(head[i]));
                if head[i] != item {
                    assert(init.contains(head[i]));
                    let k = choose|k: int| 0 <= k < init.len() && init[k] == head[i];
                    assert(text_less(s[k], s[s.len() - 1]));
                }
            } else {
                assert(all[i] == head[i] && all[j] == head[j]);
            }
        }
        assert forall|t: Text| #[trigger] all.contains(t) <==> s.contains(t) || t == item by {
            if all.contains(t) {
                let k = choose|k: int| 0 <= k < all.len() && all[k] == t;
                if k < head.len() {
                    assert(head[k] == t);
                    assert(head.contains(t));
                    if t != item {
                        let m = choose|m: int| 0 <= m < init.len() && init[m] == t;
                        assert(s[m] == t);
                    }
                } else {
                    assert(s[s.len() - 1] == t);
                }
            }
            if s.contains(t) || t == item {
                if t == s.last() {
                    assert(all[all.len() - 1] == t);
                } else {
                    if t != item {
                        let m = choose|m: int| 0 <= m < s.len() && s[m] == t;
                        assert(init[m] == t);
                        assert(init.contains(t));
                    }
                    assert(head.contains(t));
                    let k = choose|k: int| 0 <= k < head.len() && head[k] == t;
                    assert(all[k] == t);
                }
            }
        }
    } else {
        assert forall|i: int, j: int| 0 <= i < j < all.len() implies text_less(
            #[trigger] all[i],
            #[trigger] all[j],
        ) by {
            if j == s.len() {
                lemma_text_less_total(s.last(), item);
                assert(s.last() == s[s.len() - 1]);
                assert(s.contains(s[s.len() - 1]));
                if i < s.len() - 1 {
                    assert(text_less(s[i], s[s.len() - 1]));
                    lemma_text_less_transitive(s[i], s.last(), item);
                }
            } else {
                assert(all[i] == s[i] && all[j] == s[j]);
            }
        }
        assert forall|t: Text| #[trigger] all.contains(t) <==> s.contains(t) || t == item by {
            if all.contains(t) {
                let k = choose|k: int| 0 <= k < all.len() && all[k] == t;
                if k < s.len() {
                    assert(s[k] == t);
                }
            }
            if s.contains(t) {
                let k = choose|k: int| 0 <= k < s.len() && s[k] == t;
                assert(all[k] == t);
            }
            assert(all[s.len() as int] == item);
        }
    }
}

/// A finite set of texts can be put in order, and nothing is lost or added.
pub(crate) proof fn lemma_finite_in_order(elements: Set<Text>)
    requires
        elements.finite(),
    ensures
        ascending(in_order(elements)),
        in_order(elements).to_set() == elements,
    decreases elements.len(),
{
    if elements.len() == 0 {
        let none = Seq::<Text>::empty();
        assert(none.to_set() =~= elements);
        assert(ascending(none));
    } else {
        let item = elements.choose();
        let fewer = elements.remove(item);
        lemma_finite_in_order(fewer);
        let s = in_order(fewer);
        assert(!s.contains(item)) by {
            assert(s.to_set().contains(item) == s.contains(item));
        }
        lemma_with_text(s, item);
        let all = with_text(s, item);
        assert(all.to_set() =~= elements) by {
            assert forall|t: Text| all.to_set().contains(t) == elements.contains(t) by {
                assert(all.contains(t) <==> s.contains(t) || t == item);
                assert(s.to_set().contains(t) == s.contains(t));
            }
        }
        assert(ascending(all));
    }
}

/// Adds `item` to an ascending list that may hold it already.
pub fn insert_text(list: &mut Vec<String>, item: String)
    requires
        ascending(old(list).deep_view()),
    ensures
        ascending(final(list).deep_view()),
        final(list).deep_view().to_set() == old(list).deep_view().to_set().insert(item@),
{
    let ghost before = list.deep_view();
    let mut i: usize = 0;
    while i < list.len() && is_less(list[i].as_str(), item.as_str())
        invariant
            i <= list@.len(),
            before == list.deep_view(),
            forall|j: int| 0 <= j < i ==> text_less(#[trigger] before[j], item@),
        decreases list@.len() - i,
    {
        assert(before[i as int] == list@[i as int]@);
        i = i + 1;
    }
    if i < list.len() && same_text(list[i].as_str(), item.as_str()) {
        assert(before[i as int] == item@);
        assert(before.to_set().contains(item@));
        assert(before.to_set().insert(item@) =~= before.to_set());
        return;
    }
    list.insert(i, item);
    proof {
        let after = list.deep_view();
        assert(after =~= before.insert(i as int, item@));
        assert forall|j: int| i <= j < before.len() implies text_less(item@, #[trigger] before[j]) by {
            lemma_text_less_total(item@, before[i as int]);
            if j != i {
                assert(text_less(before[i as int], before[j]));
                lemma_text_less_transitive(item@, before[i as int], before[j]);
            }
        }
        assert forall|a: int, b: int| 0 <= a < b < after.len() implies text_less(
            #[trigger] after[a],
            #[trigger] after[b],
        ) by {
            let x = if a < i { a } else { a - 1 };
            let y = if b < i { b } else { b - 1 };
            if a != i && b != i {
                assert(after[a] == before[x] && after[b] == before[y]);
                assert(text_less(before[x], before[y]));
            } else if a == i {
                assert(after[b] == before[y]);
            } else {
                assert(after[a] == before[x]);
            }
        }
        assert(after.to_set() =~= before.to_set().insert(item@)) by {
            assert forall|t: Text| after.to_set().contains(t) implies before.to_set().insert(
                item@,
            ).contains(t) by {
                let k = choose|k: int| 0 <= k < after.len() && after[k] == t;
                if k < i {
                    assert(before[k] == t);
                } else if k > i {
                    assert(before[k - 1] == t);
                }
            }
            assert forall|t: Text|
                before.to_set().insert(item@).contains(t) implies after.to_set().contains(t) by {
                if t == item@ {
                    assert(after[i as int] == t);
                } else {
                    let k = choose|k: int| 0 <= k < before.len() && before[k] == t;
                    if k < i {
                        assert(after[k] == t);
                    } else {
                        assert(after[k + 1] == t);
                    }
                }
            }
        }
    }
}


// ---------------------------------------------------------------------------
// Patterns
// ---------------------------------------------------------------------------

/// Whether `t` matches the pattern `p`: `%` stands for any text, `_` for any one
/// character, and ASCII letters match in either case.
pub open spec fn like(p: Text, t: Text) -> bool
    decreases p.len() + t.len(),
{
    if p.len() == 0 {
        t.len() == 0
    } else if p[0] == '%' {
        like(p.skip(1), t) || (t.len() > 0 && like(p, t.skip(1)))
    } else {
        &&& t.len() > 0
        &&& p[0] == '_' || ascii_lower(p[0]) == ascii_lower(t[0])
        &&& like(p.skip(1), t.skip(1))
    }
}

/// The part of `s` before its first NUL: patterns and what they match end there.
pub open spec fn until_nul(s: Text) -> Text {
    pieces(s, '\0')[0]
}

/// Whether `t` begins as the filter says, in which `%` and `_` are wildcards.
pub open spec fn passes_filter(filter: Text, t: Text) -> bool {
    like(until_nul(filter + "%"@), until_nul(t))
}

fn matches_pattern(p: &Vec<char>, t: &Vec<char>) -> (r: bool)
    ensures
        r == like(p@, t@),
{
    // `row[j]` tells whether the text from `j` on matches the pattern from `i` on, and
    // `end` whether the empty text does.
    let n = t.len();
    let mut row: Vec<bool> = Vec::new();
    let mut end = true;
    let mut k: usize = 0;
    while k < n
        invariant
            k <= n,
            row@.len() == k,
            forall|j: int| 0 <= j < k ==> #[trigger] row@[j] == false,
        decreases n - k,
    {
        row.push(false);
        k = k + 1;
    }
    let mut i: usize = p.len();
    let ghost none = Seq::<char>::empty();
    assert(p@.skip(i as int) =~= none);
    assert forall|j: int| 0 <= j < n implies row@[j] == like(
        p@.skip(i as int),
        #[trigger] t@.skip(j),
    ) by {
        assert(t@.skip(j).len() == n - j);
        assert(row@[j] == false);
    }
    while i > 0
        invariant
            i <= p@.len(),
            n == t@.len(),
            row@.len() == n,
            none == Seq::<char>::empty(),
            end == like(p@.skip(i as int), none),
            forall|j: int|
                0 <= j < n ==> row@[j] == like(p@.skip(i as int), #[trigger] t@.skip(j)),
        decreases i,
    {
        let c = p[i - 1];
        let ghost above = row@;
        let ghost rest = p@.skip(i as int);
        let ghost pattern = p@.skip(i - 1);
        proof {
            assert(pattern[0] == c);
            assert(pattern.skip(1) =~= rest);
            assert(t@.skip(n as int) =~= none);
        }
        if c == '%' {
            // From the end: the text matches where the rest of the pattern matches it,
            // or where the text without its first character matches.
            let mut j: usize = n;
            let mut behind = end;
            while j > 0
                invariant
                    j <= n,
                    n == t@.len(),
                    row@.len() == n,
                    above.len() == n,
                    pattern.len() > 0,
                    pattern[0] == '%',
                    pattern.skip(1) == rest,
                    behind == like(pattern, t@.skip(j as int)),
                    forall|m: int| 0 <= m < n ==> above[m] == like(rest, #[trigger] t@.skip(m)),
                    forall|m: int| 0 <= m < j ==> #[trigger] row@[m] == above[m],
                    forall|m: int|
                        j <= m < n ==> row@[m] == like(pattern, #[trigger] t@.skip(m)),
                decreases j,
            {
                let here = row[j - 1] || behind;
                assert(t@.skip(j - 1).skip(1) =~= t@.skip(j as int));
                row.set(j - 1, here);
                behind = here;
                j = j - 1;
            }
        } else {
            let mut j: usize = 0;
            while j < n
                invariant
                    j <= n,
                    n == t@.len(),
                    row@.len() == n,
                    above.len() == n,
                    c != '%',
                    pattern.len() > 0,
                    pattern[0] == c,
                    pattern.skip(1) == rest,
                    end == like(rest, t@.skip(n as int)),
                    forall|m: int| 0 <= m < n ==> above[m] == like(rest, #[trigger] t@.skip(m)),
                    forall|m: int| j <= m < n ==> #[trigger] row@[m] == above[m],
                    forall|m: int|
                        0 <= m < j ==> row@[m] == like(pattern, #[trigger] t@.skip(m)),
                decreases n - j,
            {
                let d = t[j];
                let behind = if j + 1 < n {
                    row[j + 1]
                } else {
                    end
                };
                assert(t@.skip(j as int).skip(1) =~= t@.skip(j + 1));
                assert(t@.skip(j as int)[0] == d);
                row.set(j, (c == '_' || to_ascii_lower(c) == to_ascii_lower(d)) && behind);
                j = j + 1;
            }
            end = false;
        }
        i = i - 1;
    }
    assert(p@.skip(0) =~= p@);
    assert(t@.skip(0) =~= t@);
    if n > 0 {
        row[0]
    } else {
        assert(t@ =~= none);
        end
    }
}

pub fn begins_like(filter: &str, t: &str) -> (r: bool)
    ensures
        r == passes_filter(filter@, t@),
{
    let mut pattern = filter.to_owned();
    pattern.append("%");
    let p = first_piece(pattern.as_str(), '\0');
    let u = first_piece(t, '\0');
    let x = chars_of(p.as_str());
    let y = chars_of(u.as_str());
    matches_pattern(&x, &y)
}

} // verus!
