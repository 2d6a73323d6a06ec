//! What is done to texts, told by their characters.

use vstd::prelude::*;

use crate::html;
use crate::text;
use crate::text::Text;

verus! {

// ---------------------------------------------------------------------------
// Characters
// ---------------------------------------------------------------------------

/// Whether one character is a small letter of ASCII and the other its capital.
pub open spec fn are_cases(small: char, capital: char) -> bool {
    'A' <= capital <= 'Z' && small as u32 == capital as u32 + 32
}

/// Whether two characters are the same, or the two cases of a letter of ASCII.
pub open spec fn is_same_letter(a: char, b: char) -> bool {
    a == b || are_cases(a, b) || are_cases(b, a)
}

/// Two characters have the same small form if and only if they are the same letter.
proof fn lemma_same_letter(a: char, b: char)
    ensures
        text::ascii_lower(a) == text::ascii_lower(b) <==> is_same_letter(a, b),
{
}

/// Names are the same if they agree at each place, up to the case of ASCII letters.
pub proof fn names_agree_letter_by_letter(a: Text, b: Text)
    ensures
        text::same_name(a, b) <==> a.len() == b.len() && forall|i: int|
            0 <= i < a.len() ==> is_same_letter(#[trigger] a[i], b[i]),
{
    let (x, y) = (text::folded(a), text::folded(b));
    if text::same_name(a, b) {
        assert(x.len() == y.len());
        assert forall|i: int| 0 <= i < a.len() implies is_same_letter(#[trigger] a[i], b[i]) by {
            assert(x[i] == y[i]);
            lemma_same_letter(a[i], b[i]);
        }
    }
    if a.len() == b.len() && forall|i: int|
        0 <= i < a.len() ==> is_same_letter(#[trigger] a[i], b[i]) {
        assert forall|i: int| 0 <= i < x.len() implies x[i] == y[i] by {
            lemma_same_letter(a[i], b[i]);
        }
        assert(x =~= y);
    }
}

/// White space is the tab and the four characters after it, the space, and what Unicode
/// adds to these.
pub proof fn white_space_is_that_of_unicode(c: char)
    ensures
        text::is_white_space(c) <==> seq![
            0x9u32,
            0xa,
            0xb,
            0xc,
            0xd,
            0x20,
            0x85,
            0xa0,
            0x1680,
            0x2000,
            0x2001,
            0x2002,
            0x2003,
            0x2004,
            0x2005,
            0x2006,
            0x2007,
            0x2008,
            0x2009,
            0x200a,
            0x2028,
            0x2029,
            0x202f,
            0x205f,
            0x3000,
        ].contains(c as u32),
{
    let all = seq![
        0x9u32,
        0xa,
        0xb,
        0xc,
        0xd,
        0x20,
        0x85,
        0xa0,
        0x1680,
        0x2000,
        0x2001,
        0x2002,
        0x2003,
        0x2004,
        0x2005,
        0x2006,
        0x2007,
        0x2008,
        0x2009,
        0x200a,
        0x2028,
        0x2029,
        0x202f,
        0x205f,
        0x3000,
    ];
    let n = c as u32;
    if text::is_white_space(c) {
        let i = if n <= 0xd {
            n - 0x9
        } else if n == 0x20 {
            5
        } else if n == 0x85 {
            6
        } else if n == 0xa0 {
            7
        } else if n == 0x1680 {
            8
        } else if n <= 0x200a {
            n - 0x2000 + 9
        } else if n == 0x2028 {
            20
        } else if n == 0x2029 {
            21
        } else if n == 0x202f {
            22
        } else if n == 0x205f {
            23
        } else {
            24
        };
        assert(all[i] == n);
    }
}

// ---------------------------------------------------------------------------
// Ends of texts
// ---------------------------------------------------------------------------

/// Whether a text is white space and nothing else.
pub open spec fn is_blank(s: Text) -> bool {
    forall|i: int| 0 <= i < s.len() ==> text::is_white_space(#[trigger] s[i])
}

/// White space in front is taken away.
proof fn lemma_trimmed_front(before: Text, s: Text)
    requires
        is_blank(before),
    ensures
        text::trimmed_start(before + s) == text::trimmed_start(s),
    decreases before.len(),
{
    let all = before + s;
    if before.len() > 0 {
        let rest = before.skip(1);
        assert forall|i: int| 0 <= i < rest.len() implies text::is_white_space(
            #[trigger] rest[i],
        ) by {
            assert(rest[i] == before[i + 1]);
        }
        assert(all[0] == before[0]);
        lemma_trimmed_front(rest, s);
        assert(all.skip(1) =~= rest + s);
    } else {
        assert(all =~= s);
    }
}

/// White space at the end is taken away.
proof fn lemma_trimmed_back(s: Text, after: Text)
    requires
        is_blank(after),
    ensures
        text::trimmed_end(s + after) == text::trimmed_end(s),
    decreases after.len(),
{
    let all = s + after;
    if after.len() > 0 {
        let rest = after.drop_last();
        assert forall|i: int| 0 <= i < rest.len() implies text::is_white_space(
            #[trigger] rest[i],
        ) by {
            assert(rest[i] == after[i]);
        }
        assert(all.last() == after[after.len() - 1]);
        lemma_trimmed_back(s, rest);
        assert(all.drop_last() =~= s + rest);
    } else {
        assert(all =~= s);
    }
}

/// Trimming takes the white space around a text away, and nothing of the text.
pub proof fn trimming_takes_the_space_around(before: Text, s: Text, after: Text)
    requires
        is_blank(before),
        is_blank(after),
        s.len() > 0 ==> !text::is_white_space(s[0]) && !text::is_white_space(s.last()),
    ensures
        text::trimmed(before + s + after) == s,
{
    assert(before + s + after =~= before + (s + after));
    lemma_trimmed_front(before, s + after);
    if s.len() > 0 {
        assert((s + after)[0] == s[0]);
        assert(text::trimmed_start(s + after) == s + after);
        lemma_trimmed_back(s, after);
    } else {
        assert(s + after =~= after + s);
        lemma_trimmed_front(after, s);
        assert(text::trimmed_start(s) == s);
    }
}

/// The slashes at the end are taken away, and nothing before them.
pub proof fn slashes_at_the_end_are_taken(s: Text, slashes: Text)
    requires
        s.len() > 0 ==> s.last() != '/',
        forall|i: int| 0 <= i < slashes.len() ==> #[trigger] slashes[i] == '/',
    ensures
        text::without_trailing_slashes(s + slashes) == s,
    decreases slashes.len(),
{
    let all = s + slashes;
    if slashes.len() > 0 {
        let rest = slashes.drop_last();
        assert forall|i: int| 0 <= i < rest.len() implies #[trigger] rest[i] == '/' by {
            assert(rest[i] == slashes[i]);
        }
        assert(all.last() == slashes[slashes.len() - 1]);
        slashes_at_the_end_are_taken(s, rest);
        assert(all.drop_last() =~= s + rest);
    } else {
        assert(all =~= s);
    }
}

/// What follows a prefix is what is left of the text.
pub proof fn prefixes_are_followed_by_the_rest(s: Text, p: Text, rest: Text)
    ensures
        text::after_prefix(s, p) == Some(rest) <==> s == p + rest,
{
    if p.is_prefix_of(s) {
        assert(s =~= p + s.skip(p.len() as int));
    }
    if s == p + rest {
        assert(p.is_prefix_of(s));
        assert(s.skip(p.len() as int) =~= rest);
    }
}

// ---------------------------------------------------------------------------
// Texts in texts
// ---------------------------------------------------------------------------

/// A text contains the one that stands between two others.
pub proof fn texts_contain_what_stands_in_them(before: Text, p: Text, after: Text)
    ensures
        text::contains_text(before + p + after, p),
        text::stands_at(before + p + after, before.len() as int, p),
{
    let s = before + p + after;
    assert(s.subrange(before.len() as int, (before.len() + p.len()) as int) =~= p);
    assert(text::stands_at(s, before.len() as int, p));
}

/// What a text contains stands between two others.
pub proof fn what_is_contained_stands_between(s: Text, p: Text) -> (ends: (Text, Text))
    requires
        text::contains_text(s, p),
    ensures
        s == ends.0 + p + ends.1,
{
    let i = choose|i: int| text::stands_at(s, i, p);
    let (before, after) = (s.take(i), s.skip(i + p.len()));
    assert forall|k: int| 0 <= k < s.len() implies s[k] == (before + p + after)[k] by {
        if i <= k < i + p.len() {
            assert(s.subrange(i, i + p.len())[k - i] == s[k]);
        }
    }
    assert(s =~= before + p + after);
    (before, after)
}

/// What follows the first place of a text is what stands behind it, if the text does not
/// stand at an earlier place.
pub proof fn the_first_place_counts(before: Text, p: Text, after: Text)
    requires
        forall|j: int|
            0 <= j < before.len() ==> !#[trigger] text::stands_at(before + p + after, j, p),
    ensures
        text::after_first(before + p + after, p) == Some(after),
{
    texts_contain_what_stands_in_them(before, p, after);
    text::lemma_after_first(before + p + after, p, before.len() as int);
    assert((before + p + after).skip((before.len() + p.len()) as int) =~= after);
}

// ---------------------------------------------------------------------------
// Pieces
// ---------------------------------------------------------------------------

/// Whether a text has the separator nowhere.
pub open spec fn is_whole(s: Text, separator: char) -> bool {
    forall|i: int| 0 <= i < s.len() ==> #[trigger] s[i] != separator
}

/// Characters that are no separator are added to the last piece.
proof fn lemma_more_of_the_last_piece(s: Text, more: Text, separator: char)
    requires
        is_whole(more, separator),
    ensures
        text::pieces(s, separator).len() > 0,
        text::pieces(s + more, separator) == text::pieces(s, separator).drop_last().push(
            text::pieces(s, separator).last() + more,
        ),
    decreases more.len(),
{
    text::lemma_pieces_nonempty(s, separator);
    let before = text::pieces(s, separator);
    let all = s + more;
    if more.len() == 0 {
        assert(all =~= s);
        assert(before.last() + more =~= before.last());
        assert(before.drop_last().push(before.last()) =~= before);
    } else {
        let init = more.drop_last();
        assert forall|i: int| 0 <= i < init.len() implies #[trigger] init[i] != separator by {
            assert(init[i] == more[i]);
        }
        lemma_more_of_the_last_piece(s, init, separator);
        assert(all.drop_last() =~= s + init);
        assert(all.last() == more[more.len() - 1]);
        let most = text::pieces(s + init, separator);
        assert(most.last().push(more.last()) =~= before.last() + more);
        assert(most.update(most.len() - 1, most.last().push(more.last()))
            =~= before.drop_last().push(before.last() + more));
    }
}

/// Splitting a text at a separator undoes joining texts that do not have it.
pub proof fn splitting_undoes_joining(parts: Seq<Text>, separator: char)
    requires
        parts.len() > 0,
        forall|i: int| 0 <= i < parts.len() ==> is_whole(#[trigger] parts[i], separator),
    ensures
        text::pieces(text::joined(parts, seq![separator]), separator) == parts,
    decreases parts.len(),
{
    let sep = seq![separator];
    let last = parts.last();
    assert(last == parts[parts.len() - 1]);
    if parts.len() == 1 {
        let none = Seq::<char>::empty();
        lemma_more_of_the_last_piece(none, last, separator);
        assert(none + last =~= last);
        assert(text::pieces(none, separator) == seq![none]);
        assert(text::pieces(last, separator) =~= parts);
    } else {
        let init = parts.drop_last();
        assert forall|i: int| 0 <= i < init.len() implies is_whole(
            #[trigger] init[i],
            separator,
        ) by {
            assert(init[i] == parts[i]);
        }
        splitting_undoes_joining(init, separator);
        let s = text::joined(init, sep);
        assert(s + sep =~= s.push(separator));
        assert(s.push(separator).drop_last() =~= s);
        let opened = text::pieces(s + sep, separator);
        assert(opened == init.push(Seq::<char>::empty()));
        lemma_more_of_the_last_piece(s + sep, last, separator);
        assert(opened.drop_last() =~= init);
        assert(opened.last() + last =~= last);
        assert(init.push(last) =~= parts);
    }
}

/// Joining texts undoes splitting, and the pieces do not have the separator.
pub proof fn joining_undoes_splitting(s: Text, separator: char)
    ensures
        text::pieces(s, separator).len() > 0,
        text::joined(text::pieces(s, separator), seq![separator]) == s,
        forall|i: int|
            0 <= i < text::pieces(s, separator).len() ==> is_whole(
                #[trigger] text::pieces(s, separator)[i],
                separator,
            ),
    decreases s.len(),
{
    let sep = seq![separator];
    let all = text::pieces(s, separator);
    if s.len() == 0 {
        assert(s =~= Seq::<char>::empty());
    } else {
        let (init, c) = (s.drop_last(), s.last());
        joining_undoes_splitting(init, separator);
        let before = text::pieces(init, separator);
        assert(init.push(c) =~= s);
        if c == separator {
            assert(all.drop_last() =~= before);
            assert(text::joined(all, sep) =~= s);
            assert forall|i: int| 0 <= i < all.len() implies is_whole(
                #[trigger] all[i],
                separator,
            ) by {
                if i < before.len() {
                    assert(all[i] == before[i]);
                }
            }
        } else {
            assert(all.drop_last() =~= before.drop_last());
            if before.len() == 1 {
                assert(text::joined(all, sep) == all[0]);
                assert(before[0] == init);
            } else {
                let head = text::joined(before.drop_last(), sep) + sep;
                assert(text::joined(before, sep) == head + before.last());
                assert(text::joined(all, sep) == head + before.last().push(c));
            }
            assert(text::joined(all, sep) =~= s);
            assert forall|i: int| 0 <= i < all.len() implies is_whole(
                #[trigger] all[i],
                separator,
            ) by {
                if i < before.len() - 1 {
                    assert(all[i] == before[i]);
                } else {
                    let p = before[i];
                    assert(all[i] == p.push(c));
                    assert forall|k: int| 0 <= k < all[i].len() implies #[trigger] all[i][k]
                        != separator by {
                        if k < p.len() {
                            assert(p[k] != separator);
                        }
                    }
                }
            }
        }
    }
}

/// The first piece ends where the first separator stands.
pub proof fn first_pieces_end_at_the_separator(s: Text, separator: char, more: Text)
    requires
        is_whole(s, separator),
        more.len() > 0 ==> more[0] == separator,
    ensures
        text::pieces(s + more, separator).len() > 0,
        text::pieces(s + more, separator)[0] == s,
        more.len() > 0 ==> text::pieces(s + more, separator).len() > 1,
    decreases more.len(),
{
    let all = s + more;
    if more.len() == 0 {
        let none = Seq::<char>::empty();
        lemma_more_of_the_last_piece(none, s, separator);
        assert(all =~= none + s);
        assert(text::pieces(none, separator) == seq![none]);
        assert(none + s =~= s);
    } else {
        let init = more.drop_last();
        if init.len() > 0 {
            assert(init[0] == more[0]);
        }
        first_pieces_end_at_the_separator(s, separator, init);
        assert(all.drop_last() =~= s + init);
        assert(all.last() == more.last());
    }
}

/// Joining two lists is joining each, with one separator between.
pub proof fn lists_are_joined_one_after_the_other(a: Seq<Text>, b: Seq<Text>, separator: Text)
    requires
        a.len() > 0,
        b.len() > 0,
    ensures
        text::joined(a + b, separator) == text::joined(a, separator) + separator + text::joined(
            b,
            separator,
        ),
        a.len() == 1 ==> text::joined(a, separator) == a[0],
    decreases b.len(),
{
    let all = a + b;
    assert(all.last() == b.last());
    if b.len() == 1 {
        assert(all.drop_last() =~= a);
    } else {
        let init = b.drop_last();
        lists_are_joined_one_after_the_other(a, init, separator);
        assert(all.drop_last() =~= a + init);
        assert(text::joined(all, separator) =~= text::joined(a, separator) + separator
            + text::joined(b, separator));
    }
}

// ---------------------------------------------------------------------------
// Numbers
// ---------------------------------------------------------------------------

/// The number that decimal digits say.
pub open spec fn said(s: Text) -> int
    decreases s.len(),
{
    if s.len() == 0 {
        0
    } else {
        said(s.drop_last()) * 10 + (s.last() as int - '0' as int)
    }
}

/// A number in decimal is digits that say it, without needless zeros in front.
pub proof fn decimals_say_their_number(n: nat)
    ensures
        text::decimal(n).len() > 0,
        forall|i: int|
            0 <= i < text::decimal(n).len() ==> '0' <= #[trigger] text::decimal(n)[i] <= '9',
        said(text::decimal(n)) == n,
        text::decimal(n)[0] == '0' <==> n == 0,
    decreases n,
{
    let s = text::decimal(n);
    if n < 10 {
        assert(s.drop_last() =~= Seq::<char>::empty());
        assert(said(s.drop_last()) == 0);
    } else {
        decimals_say_their_number(n / 10);
        let init = text::decimal(n / 10);
        assert(s.drop_last() =~= init);
        assert(s[0] == init[0]);
        assert forall|i: int| 0 <= i < s.len() implies '0' <= #[trigger] s[i] <= '9' by {
            if i < init.len() {
                assert(s[i] == init[i]);
            }
        }
    }
}

// ---------------------------------------------------------------------------
// Order
// ---------------------------------------------------------------------------

/// Whether two texts agree up to a place at which the first ends, or has the smaller
/// character.
pub open spec fn comes_first_at(a: Text, b: Text, k: int) -> bool {
    &&& 0 <= k <= a.len()
    &&& k < b.len()
    &&& forall|i: int| 0 <= i < k ==> #[trigger] a[i] == b[i]
    &&& k == a.len() || a[k] < b[k]
}

/// Texts are ordered by the first place at which they differ, as in a dictionary.
pub proof fn texts_are_ordered_as_in_a_dictionary(a: Text, b: Text)
    ensures
        text::text_less(a, b) <==> exists|k: int| #[trigger] comes_first_at(a, b, k),
    decreases a.len(),
{
    if b.len() > 0 {
        if a.len() == 0 {
            assert(comes_first_at(a, b, 0));
        } else if a[0] != b[0] {
            if a[0] < b[0] {
                assert(comes_first_at(a, b, 0));
            }
            if exists|k: int| #[trigger] comes_first_at(a, b, k) {
                let k = choose|k: int| #[trigger] comes_first_at(a, b, k);
                if k > 0 {
                    assert(a[0] == b[0]);
                }
            }
        } else {
            let (x, y) = (a.skip(1), b.skip(1));
            texts_are_ordered_as_in_a_dictionary(x, y);
            if text::text_less(x, y) {
                let k = choose|k: int| #[trigger] comes_first_at(x, y, k);
                assert forall|i: int| 0 <= i < k + 1 implies #[trigger] a[i] == b[i] by {
                    if i > 0 {
                        assert(x[i - 1] == y[i - 1]);
                    }
                }
                assert(comes_first_at(a, b, k + 1));
            }
            if exists|k: int| #[trigger] comes_first_at(a, b, k) {
                let k = choose|k: int| #[trigger] comes_first_at(a, b, k);
                assert forall|i: int| 0 <= i < k - 1 implies #[trigger] x[i] == y[i] by {
                    assert(a[i + 1] == b[i + 1]);
                }
                assert(comes_first_at(x, y, k - 1));
            }
        }
    }
}

/// Texts that are put in order are all there, each once, in the order of a dictionary.
pub proof fn texts_are_put_in_order(s: Seq<Text>)
    ensures
        ({
            let list = text::in_order(s.to_set());
            &&& forall|t: Text| #[trigger] list.contains(t) <==> s.contains(t)
            &&& forall|i: int, j: int|
                0 <= i < j < list.len() ==> text::text_less(#[trigger] list[i], #[trigger] list[j])
        }),
{
    vstd::seq_lib::seq_to_set_is_finite(s);
    text::lemma_finite_in_order(s.to_set());
    let list = text::in_order(s.to_set());
    assert forall|t: Text| #[trigger] list.contains(t) <==> s.contains(t) by {
        assert(list.to_set().contains(t) <==> s.to_set().contains(t));
    }
}

// ---------------------------------------------------------------------------
// Patterns
// ---------------------------------------------------------------------------

/// A percent sign matches every text, an underscore every character, and another character
/// itself, in either case.
pub proof fn single_characters_match(c: char, t: Text)
    ensures
        text::like(seq!['%'], t),
        c != '%' ==> (text::like(seq![c], t) <==> t.len() == 1 && (c == '_' || is_same_letter(
            c,
            t[0],
        ))),
        text::like(Seq::empty(), t) <==> t.len() == 0,
    decreases t.len(),
{
    reveal_with_fuel(text::like, 2);
    let none = Seq::<char>::empty();
    assert(seq!['%'].skip(1) =~= none);
    assert(seq![c].skip(1) =~= none);
    if t.len() > 0 {
        single_characters_match(c, t.skip(1));
        lemma_same_letter(c, t[0]);
    }
}

/// Whether a text is two, one after the other, that match two patterns.
pub open spec fn is_split_match(p: Text, q: Text, t: Text, k: int) -> bool {
    0 <= k <= t.len() && text::like(p, t.take(k)) && text::like(q, t.skip(k))
}

/// One pattern after the other matches what is one match after the other.
pub proof fn patterns_match_one_after_the_other(p: Text, q: Text, t: Text)
    ensures
        text::like(p + q, t) <==> exists|k: int| #[trigger] is_split_match(p, q, t, k),
    decreases p.len() + t.len(),
{
    let all = p + q;
    let none = Seq::<char>::empty();
    if p.len() == 0 {
        assert(all =~= q);
        assert(t.take(0) =~= none);
        assert(t.skip(0) =~= t);
        if text::like(q, t) {
            assert(is_split_match(p, q, t, 0));
        }
        if exists|k: int| #[trigger] is_split_match(p, q, t, k) {
            let k = choose|k: int| #[trigger] is_split_match(p, q, t, k);
            assert(t.take(k).len() == k);
        }
    } else {
        assert(all[0] == p[0]);
        assert(all.skip(1) =~= p.skip(1) + q);
        if p[0] == '%' {
            patterns_match_one_after_the_other(p.skip(1), q, t);
            if t.len() > 0 {
                patterns_match_one_after_the_other(p, q, t.skip(1));
            }
            if text::like(all, t) {
                if text::like(all.skip(1), t) {
                    let k = choose|k: int| #[trigger] is_split_match(p.skip(1), q, t, k);
                    assert(text::like(p, t.take(k)));
                    assert(is_split_match(p, q, t, k));
                } else {
                    let k = choose|k: int| #[trigger] is_split_match(p, q, t.skip(1), k);
                    assert(t.take(k + 1).skip(1) =~= t.skip(1).take(k));
                    assert(t.skip(1).skip(k) =~= t.skip(k + 1));
                    assert(is_split_match(p, q, t, k + 1));
                }
            }
            if exists|k: int| #[trigger] is_split_match(p, q, t, k) {
                let k = choose|k: int| #[trigger] is_split_match(p, q, t, k);
                let head = t.take(k);
                if text::like(p.skip(1), head) {
                    assert(is_split_match(p.skip(1), q, t, k));
                } else {
                    assert(head.skip(1) =~= t.skip(1).take(k - 1));
                    assert(t.skip(1).skip(k - 1) =~= t.skip(k));
                    assert(is_split_match(p, q, t.skip(1), k - 1));
                }
            }
        } else {
            if t.len() > 0 {
                patterns_match_one_after_the_other(p.skip(1), q, t.skip(1));
                if text::like(all, t) {
                    let k = choose|k: int| #[trigger] is_split_match(p.skip(1), q, t.skip(1), k);
                    assert(t.take(k + 1).skip(1) =~= t.skip(1).take(k));
                    assert(t.take(k + 1)[0] == t[0]);
                    assert(t.skip(1).skip(k) =~= t.skip(k + 1));
                    assert(is_split_match(p, q, t, k + 1));
                }
            }
            if exists|k: int| #[trigger] is_split_match(p, q, t, k) {
                let k = choose|k: int| #[trigger] is_split_match(p, q, t, k);
                let head = t.take(k);
                assert(head.len() > 0);
                assert(head[0] == t[0]);
                assert(head.skip(1) =~= t.skip(1).take(k - 1));
                assert(t.skip(1).skip(k - 1) =~= t.skip(k));
                assert(is_split_match(p.skip(1), q, t.skip(1), k - 1));
            }
        }
    }
}

/// A text ends, for a pattern, before its first NUL.
pub proof fn texts_end_before_nul(s: Text, rest: Text)
    requires
        is_whole(s, '\0'),
    ensures
        text::until_nul(s) == s,
        text::until_nul(s + seq!['\0'] + rest) == s,
{
    first_pieces_end_at_the_separator(s, '\0', Seq::empty());
    assert(s + Seq::<char>::empty() =~= s);
    first_pieces_end_at_the_separator(s, '\0', seq!['\0'] + rest);
    assert(s + seq!['\0'] + rest =~= s + (seq!['\0'] + rest));
}

/// A filter without NUL lets through every text without NUL whose beginning matches it.
pub proof fn filters_match_beginnings(filter: Text, t: Text)
    requires
        is_whole(filter, '\0'),
        is_whole(t, '\0'),
    ensures
        text::passes_filter(filter, t) <==> exists|k: int|
            0 <= k <= t.len() && text::like(filter, #[trigger] t.take(k)),
{
    reveal_strlit("%");
    let p = filter + "%"@;
    assert("%"@ =~= seq!['%']);
    assert forall|i: int| 0 <= i < p.len() implies #[trigger] p[i] != '\0' by {
        if i < filter.len() {
            assert(p[i] == filter[i]);
        }
    }
    texts_end_before_nul(p, Seq::empty());
    texts_end_before_nul(t, Seq::empty());
    patterns_match_one_after_the_other(filter, seq!['%'], t);
    if text::passes_filter(filter, t) {
        let k = choose|k: int| #[trigger] is_split_match(filter, seq!['%'], t, k);
        assert(text::like(filter, t.take(k)));
    }
    if exists|k: int| 0 <= k <= t.len() && text::like(filter, #[trigger] t.take(k)) {
        let k = choose|k: int| 0 <= k <= t.len() && text::like(filter, #[trigger] t.take(k));
        single_characters_match('%', t.skip(k));
        assert(is_split_match(filter, seq!['%'], t, k));
    }
}

/// A pattern without wildcards matches what is the same name.
proof fn lemma_plain_patterns(p: Text, t: Text)
    requires
        is_whole(p, '%'),
        is_whole(p, '_'),
    ensures
        text::like(p, t) <==> text::same_name(p, t),
    decreases p.len(),
{
    if p.len() == 0 {
        if t.len() == 0 {
            assert(p =~= t);
        } else {
            assert(text::folded(p).len() != text::folded(t).len());
        }
    } else {
        let (q, u) = (p.skip(1), t.skip(1));
        assert(p[0] != '%');
        assert(p[0] != '_');
        if t.len() == 0 {
            assert(text::folded(p).len() != text::folded(t).len());
        } else {
            assert forall|i: int| 0 <= i < q.len() implies #[trigger] q[i] != '%' by {
                assert(q[i] == p[i + 1]);
            }
            assert forall|i: int| 0 <= i < q.len() implies #[trigger] q[i] != '_' by {
                assert(q[i] == p[i + 1]);
            }
            lemma_plain_patterns(q, u);
            names_agree_letter_by_letter(p, t);
            names_agree_letter_by_letter(q, u);
            lemma_same_letter(p[0], t[0]);
            if text::same_name(p, t) {
                assert forall|i: int| 0 <= i < q.len() implies is_same_letter(
                    #[trigger] q[i],
                    u[i],
                ) by {
                    assert(is_same_letter(p[i + 1], t[i + 1]));
                }
            }
            if text::like(p, t) {
                assert forall|i: int| 0 <= i < p.len() implies is_same_letter(
                    #[trigger] p[i],
                    t[i],
                ) by {
                    if i > 0 {
                        assert(is_same_letter(q[i - 1], u[i - 1]));
                    }
                }
            }
        }
    }
}

/// A filter without wildcards lets through what begins with it, up to the case of ASCII
/// letters; the empty one lets everything through.
pub proof fn plain_filters_are_beginnings(filter: Text, t: Text)
    requires
        is_whole(filter, '\0'),
        is_whole(filter, '%'),
        is_whole(filter, '_'),
        is_whole(t, '\0'),
    ensures
        text::passes_filter(filter, t) <==> filter.len() <= t.len() && forall|i: int|
            0 <= i < filter.len() ==> is_same_letter(#[trigger] filter[i], t[i]),
{
    filters_match_beginnings(filter, t);
    if text::passes_filter(filter, t) {
        let k = choose|k: int| 0 <= k <= t.len() && text::like(filter, #[trigger] t.take(k));
        lemma_plain_patterns(filter, t.take(k));
        names_agree_letter_by_letter(filter, t.take(k));
        assert forall|i: int| 0 <= i < filter.len() implies is_same_letter(
            #[trigger] filter[i],
            t[i],
        ) by {
            assert(t.take(k)[i] == t[i]);
        }
    }
    if filter.len() <= t.len() && forall|i: int|
        0 <= i < filter.len() ==> is_same_letter(#[trigger] filter[i], t[i]) {
        let head = t.take(filter.len() as int);
        lemma_plain_patterns(filter, head);
        names_agree_letter_by_letter(filter, head);
        assert(text::like(filter, t.take(filter.len() as int)));
    }
}

// ---------------------------------------------------------------------------
// HTML
// ---------------------------------------------------------------------------

/// A text is escaped character by character.
pub proof fn texts_are_escaped_piece_by_piece(a: Text, b: Text)
    ensures
        html::escaped(a + b) == html::escaped(a) + html::escaped(b),
    decreases b.len(),
{
    let all = a + b;
    if b.len() == 0 {
        assert(all =~= a);
        assert(html::escaped(a) + html::escaped(b) =~= html::escaped(a));
    } else {
        texts_are_escaped_piece_by_piece(a, b.drop_last());
        assert(all.drop_last() =~= a + b.drop_last());
        assert(all.last() == b.last());
        assert(html::escaped(all) =~= html::escaped(a) + html::escaped(b));
    }
}

/// The five characters that mean something in HTML are written by name, and no other is.
pub proof fn five_characters_are_escaped(c: char)
    ensures
        ({
            let r = html::escaped(seq![c]);
            &&& c == '&' ==> r == "&amp;"@
            &&& c == '<' ==> r == "&lt;"@
            &&& c == '>' ==> r == "&gt;"@
            &&& c == '"' ==> r == "&quot;"@
            &&& c == '\'' ==> r == "&#39;"@
            &&& c != '&' && c != '<' && c != '>' && c != '"' && c != '\'' ==> r == seq![c]
        }),
{
    reveal_with_fuel(html::escaped, 2);
    let none = Seq::<char>::empty();
    assert(seq![c].drop_last() =~= none);
    assert(none + html::escaped_char(c) =~= html::escaped_char(c));
}

} // verus!
