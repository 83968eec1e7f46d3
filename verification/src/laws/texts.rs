//! Laws of texts: how the text of a whole follows from that of its parts.

use vstd::prelude::*;
use vstd::utf8::encode_utf8;
use crate::text::{
    alphanumeric, before_dot, behind_prefix, commas_and_spaces, decimal, first_colon_as_slash,
    is_digit, joined, long_pieces, lowercase, non_alphanumeric, occurs_in, pieces, replaced,
    same_ignoring_ascii_case, strip_end, strip_start, terms, trimmed, unsigned_value, white_space,
    white_spaces, words, Strip,
};

verus! {

// --- Numbers ---------------------------------------------------------------

/// A number below ten is written as its digit, and a further digit goes behind
/// the digits before it.
pub proof fn law_decimal_notation(n: nat, d: nat)
    requires
        d < 10,
    ensures
        decimal(d) == seq![(48 + d) as char],
        n > 0 ==> decimal(10 * n + d) == decimal(n).push((48 + d) as char),
{
    assert((10 * n + d) / 10 == n);
    assert((10 * n + d) % 10 == d);
}

/// A digit reads as its value, and every further digit makes ten times the
/// number and the digit of it, as long as that fits in 64 bits.
pub proof fn law_numbers_are_read_digit_by_digit(s: Seq<char>, c: char)
    ensures
        '0' <= c <= '9' ==> unsigned_value(seq![c]) == Some((c as u64 - 48) as u64),
        unsigned_value(s) matches Some(v) ==> {
            let n = v * 10 + (c as int - 48);
            unsigned_value(s.push(c)) == if '0' <= c <= '9' && n <= u64::MAX {
                Some(n as u64)
            } else {
                None
            }
        },
{
    assert(seq![c].drop_last() =~= Seq::<char>::empty());
    reveal_with_fuel(crate::text::digits_value, 2);
    let one = crate::text::without_plus(seq![c]);
    if '0' <= c <= '9' {
        assert(one =~= seq![c]);
        assert(is_digit(one[0]));
    }
    if unsigned_value(s) is Some {
        let d = crate::text::without_plus(s);
        let e = crate::text::without_plus(s.push(c));
        assert(e =~= d.push(c));
        assert(e.drop_last() =~= d);
        assert(e[d.len() as int] == c);
        assert forall|i: int| 0 <= i < d.len() implies is_digit(#[trigger] e[i]) by {
            assert(is_digit(d[i]));
        }
    }
}

/// Nothing else is a number: no text without digits, none with another character
/// in it, and a plus sign counts in front alone.
pub proof fn law_what_is_no_number(s: Seq<char>, i: int)
    ensures
        unsigned_value(Seq::empty()) is None,
        unsigned_value(seq!['+']) is None,
        0 <= i < s.len() && !('0' <= s[i] <= '9') && (i > 0 || s[i] != '+')
            ==> unsigned_value(s) is None,
        s.len() > 0 && s[0] != '+' ==> unsigned_value(seq!['+'] + s) == unsigned_value(s),
{
    assert(seq!['+'].drop_first() =~= Seq::<char>::empty());
    assert((seq!['+'] + s).drop_first() =~= s);
    if 0 <= i < s.len() && !('0' <= s[i] <= '9') && (i > 0 || s[i] != '+') {
        let d = crate::text::without_plus(s);
        let k = if s[0] == '+' { i - 1 } else { i };
        assert(!is_digit(d[k]));
    }
}

// --- Stripping -------------------------------------------------------------

/// Stripping the start takes off the strippable characters there, and no more.
pub proof fn law_strip_start(s: Seq<char>, what: Strip) -> (k: int)
    ensures
        0 <= k <= s.len(),
        strip_start(s, what) == s.skip(k),
        forall|i: int| 0 <= i < k ==> what.spec_has(#[trigger] s[i]),
        k < s.len() ==> !what.spec_has(s[k]),
    decreases s.len(),
{
    if s.len() > 0 && what.spec_has(s[0]) {
        let rest = s.drop_first();
        let k = law_strip_start(rest, what);
        assert(rest.skip(k) =~= s.skip(k + 1));
        assert forall|i: int| 0 <= i < k + 1 implies what.spec_has(#[trigger] s[i]) by {
            if i > 0 {
                assert(what.spec_has(rest[i - 1]));
            }
        }
        k + 1
    } else {
        assert(s.skip(0) =~= s);
        0
    }
}

/// Stripping the end takes off the strippable characters there, and no more.
pub proof fn law_strip_end(s: Seq<char>, what: Strip) -> (k: int)
    ensures
        0 <= k <= s.len(),
        strip_end(s, what) == s.take(k),
        forall|i: int| k <= i < s.len() ==> what.spec_has(#[trigger] s[i]),
        k > 0 ==> !what.spec_has(s[k - 1]),
    decreases s.len(),
{
    if s.len() > 0 && what.spec_has(s.last()) {
        let rest = s.drop_last();
        let k = law_strip_end(rest, what);
        assert(rest.take(k) =~= s.take(k));
        assert forall|i: int| k <= i < s.len() implies what.spec_has(#[trigger] s[i]) by {
            if i < s.len() - 1 {
                assert(what.spec_has(rest[i]));
            }
        }
        k
    } else {
        assert(s.take(s.len() as int) =~= s);
        s.len() as int
    }
}

/// Which characters can be stripped.
pub proof fn law_strippable(c: char)
    ensures
        Strip::White.spec_has(c) <==> white_space(c),
        Strip::LowerV.spec_has(c) <==> c == 'v',
        Strip::AnyV.spec_has(c) <==> (c == 'v' || c == 'V'),
        Strip::Slash.spec_has(c) <==> c == '/',
        white_space(c) ==> c != 'v' && c != 'V' && c != '/' && c != '.' && !('0' <= c <= '9'),
        white_space(' ') && white_space('\n') && white_space('\t') && white_space('\u{3000}'),
{
}

/// A text between white space is trimmed to itself, where it has none at its own
/// ends.
pub proof fn law_trimmed_text(before: Seq<char>, s: Seq<char>, behind: Seq<char>)
    requires
        forall|i: int| 0 <= i < before.len() ==> white_space(#[trigger] before[i]),
        forall|i: int| 0 <= i < behind.len() ==> white_space(#[trigger] behind[i]),
        s.len() > 0 ==> !white_space(s[0]) && !white_space(s.last()),
    ensures
        trimmed(before + s + behind) == s,
{
    let all = before + s + behind;
    let k = law_strip_start(all, Strip::White);
    let rest = strip_start(all, Strip::White);
    let m = law_strip_end(rest, Strip::White);
    if s.len() > 0 {
        if k < before.len() {
            assert(white_space(before[k]));
            assert(all[k] == before[k]);
        }
        if k > before.len() {
            assert(all[before.len() as int] == s[0]);
        }
        assert(rest =~= s + behind);
        if m < s.len() {
            assert(rest[s.len() - 1] == s.last());
        }
        if m > s.len() {
            assert(rest[m - 1] == behind[m - 1 - s.len()]);
        }
        assert(rest.take(m) =~= s);
    } else {
        if k < all.len() {
            assert(all[k] == if k < before.len() { before[k] } else { behind[k - before.len()] });
        }
        assert(rest.len() == 0);
        assert(rest.take(m) =~= s);
    }
}

// --- Searching -------------------------------------------------------------

/// A text occurs wherever it stands between two others, and nowhere else.
pub proof fn law_occurrence(before: Seq<char>, part: Seq<char>, behind: Seq<char>, whole: Seq<char>)
    ensures
        occurs_in(part, before + part + behind),
        occurs_in(part, whole) ==> exists|a: Seq<char>, b: Seq<char>|
            whole == #[trigger] (a + part + b),
{
    let all = before + part + behind;
    let n = before.len() as int;
    assert(all.subrange(n, n + part.len()) =~= part);
    if occurs_in(part, whole) {
        let i = choose|i: int|
            0 <= i <= whole.len() - part.len() && #[trigger] whole.subrange(i, i + part.len())
                == part;
        assert(whole =~= whole.take(i) + part + whole.skip(i + part.len()));
    }
}

/// Behind a prefix stands what follows it; a text that does not start with the
/// prefix has nothing behind it.
pub proof fn law_behind_prefix(prefix: Seq<char>, rest: Seq<char>, s: Seq<char>)
    ensures
        behind_prefix(prefix + rest, prefix) == Some(rest),
        behind_prefix(s, prefix) matches Some(t) ==> s == prefix + t,
{
    assert(prefix =~= (prefix + rest).take(prefix.len() as int));
    assert((prefix + rest).skip(prefix.len() as int) =~= rest);
    if behind_prefix(s, prefix) is Some {
        assert(s =~= prefix + s.skip(prefix.len() as int));
    }
}

/// Texts are the same but for ASCII case exactly where each two characters are
/// equal or a capital and its small letter.
pub proof fn law_ascii_case(a: Seq<char>, b: Seq<char>)
    ensures
        same_ignoring_ascii_case(a, b) <==> a.len() == b.len() && forall|i: int|
            0 <= i < a.len() ==> {
                ||| #[trigger] a[i] == b[i]
                ||| 'A' <= a[i] <= 'Z' && b[i] as int == a[i] as int + 32
                ||| 'A' <= b[i] <= 'Z' && a[i] as int == b[i] as int + 32
            },
{
}

// --- Splitting -------------------------------------------------------------

/// A text that is not cut is one piece.
pub proof fn law_uncut_text(s: Seq<char>, cut: Seq<bool>)
    requires
        cut.len() == s.len(),
        forall|i: int| 0 <= i < cut.len() ==> !#[trigger] cut[i],
    ensures
        pieces(s, cut) == seq![s],
    decreases s.len(),
{
    if s.len() > 0 {
        assert(!cut[cut.len() - 1]);
        assert forall|i: int| 0 <= i < cut.drop_last().len() implies !#[trigger]
            cut.drop_last()[i] by {
            assert(!cut[i]);
        }
        law_uncut_text(s.drop_last(), cut.drop_last());
        assert(s.drop_last().push(s.last()) =~= s);
        assert(pieces(s, cut) =~= seq![s]);
    } else {
        assert(s =~= Seq::<char>::empty());
    }
}

/// A cut parts the pieces before it from those behind it, and belongs to none.
pub proof fn law_cut_text(
    a: Seq<char>,
    cut_a: Seq<bool>,
    c: char,
    b: Seq<char>,
    cut_b: Seq<bool>,
)
    requires
        cut_a.len() == a.len(),
        cut_b.len() == b.len(),
    ensures
        pieces(a + seq![c] + b, cut_a + seq![true] + cut_b) == pieces(a, cut_a) + pieces(b, cut_b),
        pieces(b, cut_b).len() > 0,
    decreases b.len(),
{
    let s = a + seq![c] + b;
    let cut = cut_a + seq![true] + cut_b;
    if b.len() == 0 {
        assert(s.drop_last() =~= a);
        assert(cut.drop_last() =~= cut_a);
        assert(pieces(s, cut) =~= pieces(a, cut_a) + pieces(b, cut_b));
    } else {
        law_cut_text(a, cut_a, c, b.drop_last(), cut_b.drop_last());
        assert(s.drop_last() =~= a + seq![c] + b.drop_last());
        assert(cut.drop_last() =~= cut_a + seq![true] + cut_b.drop_last());
        assert(s.last() == b.last());
        assert(cut.last() == cut_b.last());
        assert(pieces(s, cut) =~= pieces(a, cut_a) + pieces(b, cut_b));
    }
}

/// Of two lists of pieces the long ones stay, in order; a single one stays where
/// it has enough bytes.
pub proof fn law_long_pieces(a: Seq<Seq<char>>, b: Seq<Seq<char>>, p: Seq<char>, min: nat)
    ensures
        long_pieces(a + b, min) == long_pieces(a, min) + long_pieces(b, min),
        long_pieces(seq![p], min) == if encode_utf8(p).len() >= min {
            seq![p]
        } else {
            seq![]
        },
        long_pieces(Seq::empty(), min) == Seq::<Seq<char>>::empty(),
{
    let keep = |q: Seq<char>| encode_utf8(q).len() >= min;
    lemma_filter_splits(a, b, keep);
    lemma_filter_one(p, keep);
}

proof fn lemma_filter_one(p: Seq<char>, keep: spec_fn(Seq<char>) -> bool)
    ensures
        seq![p].filter(keep) == if keep(p) {
            seq![p]
        } else {
            seq![]
        },
        Seq::<Seq<char>>::empty().filter(keep) == Seq::<Seq<char>>::empty(),
{
    reveal(Seq::filter);
    Seq::<Seq<char>>::empty().lemma_filter_push(p, keep);
    assert(Seq::<Seq<char>>::empty().push(p) =~= seq![p]);
}

proof fn lemma_filter_splits(
    a: Seq<Seq<char>>,
    b: Seq<Seq<char>>,
    keep: spec_fn(Seq<char>) -> bool,
)
    ensures
        (a + b).filter(keep) == a.filter(keep) + b.filter(keep),
    decreases b.len(),
{
    reveal(Seq::filter);
    if b.len() == 0 {
        assert(a + b =~= a);
        assert(a.filter(keep) + b.filter(keep) =~= a.filter(keep));
    } else {
        lemma_filter_splits(a, b.drop_last(), keep);
        assert(a + b =~= (a + b.drop_last()).push(b.last()));
        (a + b.drop_last()).lemma_filter_push(b.last(), keep);
        assert(b =~= b.drop_last().push(b.last()));
        b.drop_last().lemma_filter_push(b.last(), keep);
        assert((a + b).filter(keep) =~= a.filter(keep) + b.filter(keep));
    }
}

/// The terms of a text that falls into two at a character that is neither letter
/// nor digit are those of both; a text of letters and digits is one term, in
/// lower case, where it has enough bytes.
pub proof fn law_terms(s: Seq<char>, x: Seq<char>, c: char, y: Seq<char>, min: nat)
    ensures
        lowercase(s) == lowercase(x) + seq![c] + lowercase(y) && !alphanumeric(c) ==> terms(s, min)
            == terms(x, min) + terms(y, min),
        (forall|i: int|
            0 <= i < lowercase(s).len() ==> alphanumeric(#[trigger] lowercase(s)[i])) ==> terms(
            s,
            min,
        ) == if encode_utf8(lowercase(s)).len() >= min {
            seq![lowercase(s)]
        } else {
            seq![]
        },
{
    let l = lowercase(s);
    let lx = lowercase(x);
    let ly = lowercase(y);
    if l == lx + seq![c] + ly && !alphanumeric(c) {
        let cx = non_alphanumeric(lx);
        let cy = non_alphanumeric(ly);
        assert(non_alphanumeric(l) =~= cx + seq![true] + cy);
        law_cut_text(lx, cx, c, ly, cy);
        law_long_pieces(pieces(lx, cx), pieces(ly, cy), l, min);
    }
    if forall|i: int| 0 <= i < l.len() ==> alphanumeric(#[trigger] l[i]) {
        assert forall|i: int| 0 <= i < l.len() implies !#[trigger] non_alphanumeric(l)[i] by {
            assert(alphanumeric(l[i]));
        }
        law_uncut_text(l, non_alphanumeric(l));
        law_long_pieces(seq![l], seq![l], l, min);
    }
}

/// The terms of a text are the long pieces of its lower-case form, cut at every
/// character that is neither letter nor digit and nowhere else.
pub proof fn law_where_terms_end(s: Seq<char>, cut: Seq<bool>, min: nat)
    requires
        cut.len() == lowercase(s).len(),
        forall|i: int|
            0 <= i < cut.len() ==> (#[trigger] cut[i] <==> !alphanumeric(lowercase(s)[i])),
    ensures
        terms(s, min) == long_pieces(pieces(lowercase(s), cut), min),
{
    assert(cut =~= non_alphanumeric(lowercase(s)));
}

/// The words of a text that falls into two at white space are those of both; a
/// text without white space is one word, where it has enough characters.
pub proof fn law_words(x: Seq<char>, c: char, y: Seq<char>, min: nat)
    ensures
        white_space(c) ==> words(x + seq![c] + y, min) == words(x, min) + words(y, min),
        (forall|i: int| 0 <= i < x.len() ==> !white_space(#[trigger] x[i])) ==> words(x, min)
            == if x.len() >= min {
            seq![x]
        } else {
            seq![]
        },
{
    let keep = |w: Seq<char>| w.len() >= min;
    let cx = white_spaces(x);
    let cy = white_spaces(y);
    if white_space(c) {
        assert(white_spaces(x + seq![c] + y) =~= cx + seq![true] + cy);
        law_cut_text(x, cx, c, y, cy);
        lemma_filter_splits(pieces(x, cx), pieces(y, cy), keep);
    }
    if forall|i: int| 0 <= i < x.len() ==> !white_space(#[trigger] x[i]) {
        assert forall|i: int| 0 <= i < x.len() implies !#[trigger] cx[i] by {
            assert(!white_space(x[i]));
        }
        law_uncut_text(x, cx);
        lemma_filter_one(x, keep);
    }
}

/// The entries of a list that falls into two at a comma or a space are those of
/// both; a text without either is one entry, unless it is empty.
pub proof fn law_listed_entries(x: Seq<char>, c: char, y: Seq<char>)
    ensures
        c == ',' || c == ' ' ==> long_pieces(
            pieces(x + seq![c] + y, commas_and_spaces(x + seq![c] + y)),
            1,
        ) == long_pieces(pieces(x, commas_and_spaces(x)), 1) + long_pieces(
            pieces(y, commas_and_spaces(y)),
            1,
        ),
        !x.contains(',') && !x.contains(' ') ==> long_pieces(pieces(x, commas_and_spaces(x)), 1)
            == if x.len() > 0 {
            seq![x]
        } else {
            seq![]
        },
{
    let cx = commas_and_spaces(x);
    let cy = commas_and_spaces(y);
    if c == ',' || c == ' ' {
        assert(commas_and_spaces(x + seq![c] + y) =~= cx + seq![true] + cy);
        law_cut_text(x, cx, c, y, cy);
        law_long_pieces(pieces(x, cx), pieces(y, cy), x, 1);
    }
    if !x.contains(',') && !x.contains(' ') {
        assert forall|i: int| 0 <= i < x.len() implies !#[trigger] cx[i] by {
            assert(x.contains(x[i]));
        }
        law_uncut_text(x, cx);
        law_long_pieces(seq![x], seq![x], x, 1);
        assert(encode_utf8(x).len() >= 1 <==> x.len() > 0);
    }
}

/// Before the first dot stands all of a text without a dot, and what precedes
/// the dot of any other.
pub proof fn law_before_dot(a: Seq<char>, b: Seq<char>)
    requires
        !a.contains('.'),
    ensures
        before_dot(a) == a,
        before_dot(a + seq!['.'] + b) == a,
    decreases a.len(),
{
    let s = a + seq!['.'] + b;
    if a.len() > 0 {
        assert(a.contains(a[0]));
        let rest = a.drop_first();
        assert forall|i: int| 0 <= i < rest.len() implies rest[i] != '.' by {
            assert(a.contains(a[i + 1]));
        }
        law_before_dot(rest, b);
        assert(s.drop_first() =~= rest + seq!['.'] + b);
        assert(seq![a[0]] + rest =~= a);
    } else {
        assert(before_dot(a) =~= a);
        assert(before_dot(s) =~= a);
    }
}

// --- Joining and replacing -------------------------------------------------

/// A further text is joined behind a separator, the first one without.
pub proof fn law_joined(v: Seq<Seq<char>>, x: Seq<char>, sep: Seq<char>)
    ensures
        joined(Seq::empty(), sep) == Seq::<char>::empty(),
        joined(seq![x], sep) == x,
        v.len() > 0 ==> joined(v.push(x), sep) == joined(v, sep) + sep + x,
{
    assert(v.push(x).drop_last() =~= v);
}

/// Replacing goes character by character.
pub proof fn law_replaced(a: Seq<char>, b: Seq<char>, c: char, from: char, to: Seq<char>)
    ensures
        replaced(a + b, from, to) == replaced(a, from, to) + replaced(b, from, to),
        replaced(seq![c], from, to) == if c == from {
            to
        } else {
            seq![c]
        },
    decreases b.len(),
{
    let e = Seq::<char>::empty();
    assert(seq![c].drop_last() =~= e);
    assert(replaced(e, from, to) == e);
    assert(e + to =~= to);
    assert(e.push(c) =~= seq![c]);
    if b.len() == 0 {
        assert(a + b =~= a);
        assert(replaced(a, from, to) + b =~= replaced(a, from, to));
    } else {
        law_replaced(a, b.drop_last(), c, from, to);
        assert((a + b).drop_last() =~= a + b.drop_last());
        assert(replaced(a + b, from, to) =~= replaced(a, from, to) + replaced(b, from, to));
    }
}

/// Only the first colon of a text becomes a slash.
pub proof fn law_first_colon(a: Seq<char>, b: Seq<char>)
    requires
        !a.contains(':'),
    ensures
        first_colon_as_slash(a) == a,
        first_colon_as_slash(a + seq![':'] + b) == a + seq!['/'] + b,
    decreases a.len(),
{
    let s = a + seq![':'] + b;
    if a.len() > 0 {
        assert(a.contains(a[0]));
        let rest = a.drop_first();
        assert forall|i: int| 0 <= i < rest.len() implies rest[i] != ':' by {
            assert(a.contains(a[i + 1]));
        }
        law_first_colon(rest, b);
        assert(s.drop_first() =~= rest + seq![':'] + b);
        assert(seq![a[0]] + rest =~= a);
        assert(seq![a[0]] + (rest + seq!['/'] + b) =~= a + seq!['/'] + b);
    } else {
        assert(s.drop_first() =~= b);
        assert(seq!['/'] + b =~= a + seq!['/'] + b);
    }
}

} // verus!
