//! Text as sequences of characters: the building blocks that scoring, ranking
//! and rendering are written with.

use vstd::prelude::*;
use vstd::string::*;
use vstd::utf8::encode_utf8;

verus! {

/// `String::push` appends one character at the end of the text.
pub assume_specification[ String::push ](s: &mut String, c: char)
    ensures
        final(s)@ == old(s)@.push(c),
;

/// The characters of a text, in order.
pub fn chars_of(s: &str) -> (r: Vec<char>)
    ensures
        r@ == s@,
{
    let mut out: Vec<char> = Vec::new();
    for c in it: s.chars()
        invariant
            out@ == it.seq().take(it.index()),
            it.seq() == s@,
    {
        out.push(c);
    }
    out
}

/// The text made of the characters `v[from..to]`.
pub fn string_of(v: &Vec<char>, from: usize, to: usize) -> (r: String)
    requires
        from <= to <= v.len(),
    ensures
        r@ == v@.subrange(from as int, to as int),
{
    let mut out = String::new();
    let mut i: usize = from;
    while i < to
        invariant
            from <= i <= to <= v.len(),
            out@ == v@.subrange(from as int, i as int),
        decreases to - i,
    {
        out.push(v[i]);
        i += 1;
    }
    out
}

/// Whether two texts are made of the same characters.
pub fn same_text(a: &str, b: &str) -> (r: bool)
    ensures
        r == (a@ == b@),
{
    a.to_owned() == b.to_owned()
}

/// Whether one of the texts is the given one.
pub fn holds(v: &Vec<String>, s: &str) -> (r: bool)
    ensures
        r == v.deep_view().contains(s@),
{
    let mut i: usize = 0;
    while i < v.len()
        invariant
            i <= v.len(),
            forall|k: int| 0 <= k < i ==> #[trigger] v.deep_view()[k] != s@,
        decreases v.len() - i,
    {
        if same_text(&v[i], s) {
            assert(v.deep_view()[i as int] == s@);
            return true;
        }
        i += 1;
    }
    false
}

/// The number of bytes of the text in UTF-8.
pub fn byte_len(s: &str) -> (r: usize)
    ensures
        r == encode_utf8(s@).len(),
{
    s.as_bytes().len()
}

/// Two texts one after the other.
pub fn cat(a: &str, b: &str) -> (r: String)
    ensures
        r@ == a@ + b@,
{
    let mut out = a.to_owned();
    out.append(b);
    out
}

/// Three texts one after the other.
pub fn cat3(a: &str, b: &str, c: &str) -> (r: String)
    ensures
        r@ == a@ + b@ + c@,
{
    let mut out = a.to_owned();
    out.append(b);
    out.append(c);
    out
}

/// A copy of an optional text.
pub fn copy_of(o: &Option<String>) -> (r: Option<String>)
    ensures
        r.deep_view() == o.deep_view(),
{
    match o {
        Some(s) => Some(s.clone()),
        None => None,
    }
}

/// An optional text, where it is not empty.
pub open spec fn non_empty(o: Option<Seq<char>>) -> Option<Seq<char>> {
    match o {
        Some(s) => if s.len() > 0 {
            Some(s)
        } else {
            None
        },
        None => None,
    }
}

/// An optional text, where it is not empty.
pub fn if_not_empty(o: Option<String>) -> (r: Option<String>)
    ensures
        r.deep_view() == non_empty(o.deep_view()),
        o is None ==> r is None,
        o matches Some(s) ==> (s@.len() == 0 ==> r is None) && (s@.len() > 0 ==> r == o),
{
    match o {
        Some(s) => if s.as_str().is_empty() {
            None
        } else {
            Some(s)
        },
        None => None,
    }
}

// --- Numbers as text -------------------------------------------------------

/// The character of a decimal digit.
pub open spec fn digit(d: nat) -> char {
    (48 + d) as char
}

/// A number in decimal notation, without leading zeros.
pub open spec fn decimal(n: nat) -> Seq<char>
    decreases n,
{
    if n < 10 {
        seq![digit(n)]
    } else {
        decimal(n / 10).push(digit(n % 10))
    }
}

/// Writes a number in decimal notation.
pub fn decimal_text(n: u64) -> (r: String)
    ensures
        r@ == decimal(n as nat),
    decreases n,
{
    if n < 10 {
        let mut out = String::new();
        out.push((48u8 + n as u8) as char);
        out
    } else {
        let mut out = decimal_text(n / 10);
        out.push((48u8 + (n % 10) as u8) as char);
        out
    }
}

/// Whether a character is one of `0`..=`9`.
pub open spec fn is_digit(c: char) -> bool {
    '0' <= c <= '9'
}

/// The number that a run of decimal digits denotes.
pub open spec fn digits_value(s: Seq<char>) -> nat
    decreases s.len(),
{
    if s.len() == 0 {
        0
    } else {
        digits_value(s.drop_last()) * 10 + (s.last() as nat - 48) as nat
    }
}

/// What is left of a text behind one optional plus sign.
pub open spec fn without_plus(s: Seq<char>) -> Seq<char> {
    if s.len() > 0 && s[0] == '+' {
        s.drop_first()
    } else {
        s
    }
}

/// Reads an unsigned number: an optional plus sign, then decimal digits and
/// nothing else. A value that does not fit in 64 bits is no number.
pub open spec fn unsigned_value(s: Seq<char>) -> Option<u64> {
    let d = without_plus(s);
    if d.len() > 0 && (forall|i: int| 0 <= i < d.len() ==> is_digit(#[trigger] d[i]))
        && digits_value(d) <= u64::MAX {
        Some(digits_value(d) as u64)
    } else {
        None
    }
}

proof fn lemma_digits_value_grows(s: Seq<char>, k: int)
    requires
        0 <= k <= s.len(),
    ensures
        digits_value(s.take(k)) <= digits_value(s),
    decreases s.len(),
{
    if k == s.len() {
        assert(s.take(k) =~= s);
    } else {
        lemma_digits_value_grows(s.drop_last(), k);
        assert(s.drop_last().take(k) =~= s.take(k));
    }
}

/// Reads an unsigned number of at most 64 bits from decimal text.
pub fn parse_unsigned(s: &str) -> (r: Option<u64>)
    ensures
        r == unsigned_value(s@),
{
    let c = chars_of(s);
    let start: usize = if c.len() > 0 && c[0] == '+' {
        1
    } else {
        0
    };
    let ghost d = without_plus(s@);
    assert(d =~= c@.skip(start as int));
    if c.len() == start {
        return None;
    }
    let mut value: u64 = 0;
    let mut i: usize = start;
    while i < c.len()
        invariant
            start <= i <= c.len(),
            d == c@.skip(start as int),
            forall|j: int| 0 <= j < i - start ==> is_digit(#[trigger] d[j]),
            value == digits_value(d.take(i - start)),
            d == without_plus(s@),
        decreases c.len() - i,
    {
        let x = c[i];
        assert(d[i - start] == x);
        if x < '0' || x > '9' {
            return None;
        }
        proof {
            assert(d.take(i + 1 - start).drop_last() =~= d.take(i - start));
            assert(digits_value(d.take(i + 1 - start)) == value * 10 + (x as nat - 48) as nat);
            lemma_digits_value_grows(d, i + 1 - start);
        }
        let step: u64 = x as u64 - 48;
        if value > (u64::MAX - step) / 10 {
            return None;
        }
        value = value * 10 + step;
        i += 1;
    }
    assert(d.take(i - start) =~= d);
    Some(value)
}

/// Digits in groups of three from the right, with a comma between groups.
pub open spec fn grouped(d: Seq<char>) -> Seq<char>
    decreases d.len(),
{
    if d.len() <= 3 {
        d
    } else {
        grouped(d.take(d.len() - 3)).push(',') + d.skip(d.len() - 3)
    }
}

fn group_prefix(d: &Vec<char>, k: usize) -> (r: String)
    requires
        k <= d.len(),
    ensures
        r@ == grouped(d@.take(k as int)),
    decreases k,
{
    let ghost head = d@.take(k as int);
    if k <= 3 {
        assert(d@.subrange(0, k as int) =~= head);
        string_of(d, 0, k)
    } else {
        let mut out = group_prefix(d, k - 3);
        out.push(',');
        let tail = string_of(d, k - 3, k);
        out.append(&tail);
        assert(head.take(k - 3) =~= d@.take(k - 3));
        assert(head.skip(k - 3) =~= d@.subrange(k - 3, k as int));
        out
    }
}

/// A number in decimal notation with a comma between groups of three digits.
pub fn fmt_num(n: u64) -> (r: String)
    ensures
        r@ == grouped(decimal(n as nat)),
{
    let s = decimal_text(n);
    let d = chars_of(&s);
    assert(d@.take(d.len() as int) =~= d@);
    group_prefix(&d, d.len())
}

// --- Stripping and searching ----------------------------------------------

/// Whether a character has Unicode's `White_Space` property.
pub open spec fn white_space(c: char) -> bool {
    ||| '\u{9}' <= c <= '\u{d}'
    ||| c == '\u{20}'
    ||| c == '\u{85}'
    ||| c == '\u{a0}'
    ||| c == '\u{1680}'
    ||| '\u{2000}' <= c <= '\u{200a}'
    ||| c == '\u{2028}'
    ||| c == '\u{2029}'
    ||| c == '\u{202f}'
    ||| c == '\u{205f}'
    ||| c == '\u{3000}'
}

/// The characters that a text can be stripped of.
#[derive(Debug, Clone, Copy, PartialEq, Eq, Structural)]
pub enum Strip {
    /// White space.
    White,
    /// The letter `v`, in lower case.
    LowerV,
    /// The letter `v`, in either case.
    AnyV,
    /// The slash.
    Slash,
}

impl Strip {
    pub open spec fn spec_has(self, c: char) -> bool {
        match self {
            Strip::White => white_space(c),
            Strip::LowerV => c == 'v',
            Strip::AnyV => c == 'v' || c == 'V',
            Strip::Slash => c == '/',
        }
    }

    /// Whether `c` is one of the characters to strip.
    pub fn has(self, c: char) -> (r: bool)
        ensures
            r == self.spec_has(c),
            self == Strip::White ==> r == white_space(c),
            self == Strip::LowerV ==> r == (c == 'v'),
            self == Strip::AnyV ==> r == (c == 'v' || c == 'V'),
            self == Strip::Slash ==> r == (c == '/'),
    {
        match self {
            Strip::White => ('\u{9}' <= c && c <= '\u{d}') || c == '\u{20}' || c == '\u{85}' || c
                == '\u{a0}' || c == '\u{1680}' || ('\u{2000}' <= c && c <= '\u{200a}') || c
                == '\u{2028}' || c == '\u{2029}' || c == '\u{202f}' || c == '\u{205f}' || c
                == '\u{3000}',
            Strip::LowerV => c == 'v',
            Strip::AnyV => c == 'v' || c == 'V',
            Strip::Slash => c == '/',
        }
    }
}

/// A text without the strippable characters at its start.
pub open spec fn strip_start(s: Seq<char>, what: Strip) -> Seq<char>
    decreases s.len(),
{
    if s.len() > 0 && what.spec_has(s[0]) {
        strip_start(s.drop_first(), what)
    } else {
        s
    }
}

/// A text without the strippable characters at its end.
pub open spec fn strip_end(s: Seq<char>, what: Strip) -> Seq<char>
    decreases s.len(),
{
    if s.len() > 0 && what.spec_has(s.last()) {
        strip_end(s.drop_last(), what)
    } else {
        s
    }
}

/// A text without white space at either end.
pub open spec fn trimmed(s: Seq<char>) -> Seq<char> {
    strip_end(strip_start(s, Strip::White), Strip::White)
}

/// The text behind all strippable characters at the start.
pub fn without_start<'a>(s: &'a str, what: Strip) -> (r: &'a str)
    ensures
        r@ == strip_start(s@, what),
{
    let c = chars_of(s);
    let mut i: usize = 0;
    assert(c@.skip(0) =~= c@);
    while i < c.len() && what.has(c[i])
        invariant
            i <= c.len(),
            c@ == s@,
            strip_start(s@, what) == strip_start(c@.skip(i as int), what),
        decreases c.len() - i,
    {
        assert(c@.skip(i as int).drop_first() =~= c@.skip(i + 1));
        i += 1;
    }
    assert(c@.skip(i as int) =~= s@.subrange(i as int, c.len() as int));
    s.substring_char(i, c.len())
}

/// The text before all strippable characters at the end.
pub fn without_end<'a>(s: &'a str, what: Strip) -> (r: &'a str)
    ensures
        r@ == strip_end(s@, what),
{
    let c = chars_of(s);
    let mut i: usize = c.len();
    assert(c@.take(c.len() as int) =~= c@);
    while i > 0 && what.has(c[i - 1])
        invariant
            i <= c.len(),
            c@ == s@,
            strip_end(s@, what) == strip_end(c@.take(i as int), what),
        decreases i,
    {
        assert(c@.take(i as int).drop_last() =~= c@.take(i - 1));
        i -= 1;
    }
    assert(c@.take(i as int) =~= s@.subrange(0, i as int));
    s.substring_char(0, i)
}

/// The text without white space at either end.
pub fn trim<'a>(s: &'a str) -> (r: &'a str)
    ensures
        r@ == trimmed(s@),
{
    without_end(without_start(s, Strip::White), Strip::White)
}

/// Whether `part` occurs in `whole` as a run of neighbouring characters.
pub open spec fn occurs_in(part: Seq<char>, whole: Seq<char>) -> bool {
    exists|i: int|
        0 <= i <= whole.len() - part.len() && #[trigger] whole.subrange(i, i + part.len()) == part
}

fn occurs_at(part: &Vec<char>, whole: &Vec<char>, at: usize) -> (r: bool)
    requires
        at + part.len() <= whole.len(),
    ensures
        r == (whole@.subrange(at as int, at + part.len()) == part@),
{
    let mut j: usize = 0;
    while j < part.len()
        invariant
            j <= part.len(),
            at + part.len() <= whole.len(),
            forall|k: int| 0 <= k < j ==> whole@[at + k] == #[trigger] part@[k],
        decreases part.len() - j,
    {
        if whole[at + j] != part[j] {
            assert(whole@.subrange(at as int, at + part.len())[j as int] != part@[j as int]);
            return false;
        }
        j += 1;
    }
    assert(whole@.subrange(at as int, at + part.len()) =~= part@);
    true
}

/// Whether `part` occurs in `whole`.
pub fn contains_text(whole: &str, part: &str) -> (r: bool)
    ensures
        r == occurs_in(part@, whole@),
{
    let w = chars_of(whole);
    let p = chars_of(part);
    if p.len() > w.len() {
        return false;
    }
    let mut i: usize = 0;
    while i <= w.len() - p.len()
        invariant
            i <= w.len() - p.len() + 1,
            p.len() <= w.len(),
            w@ == whole@,
            p@ == part@,
            forall|k: int| 0 <= k < i ==> #[trigger] w@.subrange(k, k + p.len()) != p@,
        decreases w.len() - p.len() + 1 - i,
    {
        if occurs_at(&p, &w, i) {
            return true;
        }
        if i == w.len() - p.len() {
            return false;
        }
        i += 1;
    }
    false
}

/// Whether `c` is one of the characters of `s`.
pub fn contains_char(s: &str, c: char) -> (r: bool)
    ensures
        r == s@.contains(c),
{
    let v = chars_of(s);
    let mut i: usize = 0;
    while i < v.len()
        invariant
            i <= v.len(),
            v@ == s@,
            forall|k: int| 0 <= k < i ==> v@[k] != c,
        decreases v.len() - i,
    {
        if v[i] == c {
            assert(s@[i as int] == c);
            return true;
        }
        i += 1;
    }
    false
}

/// What is left of `s` behind `prefix`, where `s` starts with it.
pub open spec fn behind_prefix(s: Seq<char>, prefix: Seq<char>) -> Option<Seq<char>> {
    if prefix.is_prefix_of(s) {
        Some(s.skip(prefix.len() as int))
    } else {
        None
    }
}

/// What is left of `s` behind `prefix`, if `s` starts with it.
pub fn after_prefix<'a>(s: &'a str, prefix: &str) -> (r: Option<&'a str>)
    ensures
        (match r {
            Some(t) => Some(t@),
            None => None,
        }) == behind_prefix(s@, prefix@),
{
    let w = chars_of(s);
    let p = chars_of(prefix);
    if p.len() > w.len() {
        return None;
    }
    if occurs_at(&p, &w, 0) {
        assert(s@.skip(p.len() as int) =~= s@.subrange(p.len() as int, w.len() as int));
        assert(prefix@ =~= s@.subrange(0, p.len() as int));
        Some(s.substring_char(p.len(), w.len()))
    } else {
        assert(!(prefix@ =~= s@.subrange(0, p.len() as int)));
        None
    }
}

// --- Splitting and joining -------------------------------------------------

/// The lower-case form of a text, by Unicode's `Lowercase` mapping.
pub uninterp spec fn lowercase(s: Seq<char>) -> Seq<char>;

/// `str::to_lowercase`: the lower-case form of the text. Which characters map
/// to which is Unicode's table; only that the result depends on the text alone
/// is claimed.
#[verifier::external_body]
pub(crate) fn to_lowercase(s: &str) -> (r: String)
    ensures
        r@ == lowercase(s@),
{
    s.to_lowercase()
}

/// Whether a character is alphabetic or numeric, by Unicode's tables.
pub uninterp spec fn alphanumeric(c: char) -> bool;

/// `char::is_alphanumeric`: whether the character is alphabetic or numeric. The
/// tables are Unicode's; only that the answer depends on the character alone is
/// claimed.
pub assume_specification[ char::is_alphanumeric ](c: char) -> (r: bool)
    ensures
        r == alphanumeric(c),
;

/// A text cut at the marked characters, which belong to no piece. Neighbouring
/// cuts, and cuts at either end, leave empty pieces.
pub open spec fn pieces(s: Seq<char>, cut: Seq<bool>) -> Seq<Seq<char>>
    decreases s.len(),
{
    if s.len() == 0 {
        seq![Seq::<char>::empty()]
    } else {
        let before = pieces(s.drop_last(), cut.drop_last());
        if cut.last() {
            before.push(Seq::<char>::empty())
        } else {
            before.drop_last().push(before.last().push(s.last()))
        }
    }
}

/// Those pieces whose UTF-8 form has at least `min` bytes, in order.
pub open spec fn long_pieces(v: Seq<Seq<char>>, min: nat) -> Seq<Seq<char>> {
    v.filter(|p: Seq<char>| encode_utf8(p).len() >= min)
}

/// The cut marks that separate runs of alphanumeric characters.
pub open spec fn non_alphanumeric(s: Seq<char>) -> Seq<bool> {
    s.map_values(|c: char| !alphanumeric(c))
}

/// The lower-case alphanumeric runs of a text that have at least `min` bytes.
pub open spec fn terms(s: Seq<char>, min: nat) -> Seq<Seq<char>> {
    let l = lowercase(s);
    long_pieces(pieces(l, non_alphanumeric(l)), min)
}

/// The cut marks that separate runs without white space.
pub open spec fn white_spaces(s: Seq<char>) -> Seq<bool> {
    s.map_values(|c: char| white_space(c))
}

/// The cut marks at commas and spaces.
pub open spec fn commas_and_spaces(s: Seq<char>) -> Seq<bool> {
    s.map_values(|c: char| c == ',' || c == ' ')
}

proof fn lemma_pieces_not_empty(s: Seq<char>, cut: Seq<bool>)
    ensures
        pieces(s, cut).len() > 0,
    decreases s.len(),
{
    if s.len() > 0 {
        lemma_pieces_not_empty(s.drop_last(), cut.drop_last());
    }
}

/// Cuts a text at the marked characters and keeps the pieces of at least `min`
/// bytes.
pub fn cut_long(c: &Vec<char>, cut: &Vec<bool>, min: usize) -> (r: Vec<String>)
    requires
        c.len() == cut.len(),
    ensures
        r.deep_view() == long_pieces(pieces(c@, cut@), min as nat),
{
    let ghost keep = |p: Seq<char>| encode_utf8(p).len() >= min;
    let mut done: Vec<String> = Vec::new();
    let mut piece = String::new();
    let mut i: usize = 0;
    assert(pieces(c@.take(0), cut@.take(0)).drop_last() =~= Seq::empty());
    assert(done.deep_view() =~= pieces(c@.take(0), cut@.take(0)).drop_last().filter(keep)) by {
        reveal_with_fuel(Seq::filter, 1);
    }
    while i < c.len()
        invariant
            i <= c.len(),
            c.len() == cut.len(),
            keep == (|p: Seq<char>| encode_utf8(p).len() >= min),
            pieces(c@.take(i as int), cut@.take(i as int)).len() > 0,
            piece@ == pieces(c@.take(i as int), cut@.take(i as int)).last(),
            done.deep_view() == pieces(
                c@.take(i as int),
                cut@.take(i as int),
            ).drop_last().filter(keep),
        decreases c.len() - i,
    {
        let ghost before = pieces(c@.take(i as int), cut@.take(i as int));
        let ghost after = pieces(c@.take(i + 1), cut@.take(i + 1));
        proof {
            assert(c@.take(i + 1).drop_last() =~= c@.take(i as int));
            assert(cut@.take(i + 1).drop_last() =~= cut@.take(i as int));
            lemma_pieces_not_empty(c@.take(i as int), cut@.take(i as int));
        }
        if cut[i] {
            proof {
                assert(after.drop_last() =~= before);
                assert(before =~= before.drop_last().push(before.last()));
                before.drop_last().lemma_filter_push(before.last(), keep);
            }
            let ghost old_done = done.deep_view();
            if byte_len(&piece) >= min {
                done.push(piece);
                assert(done.deep_view() =~= old_done.push(before.last()));
            }
            piece = String::new();
        } else {
            assert(after.drop_last() =~= before.drop_last());
            piece.push(c[i]);
        }
        i += 1;
    }
    let ghost all = pieces(c@, cut@);
    proof {
        assert(c@.take(i as int) =~= c@);
        assert(cut@.take(i as int) =~= cut@);
        assert(all =~= all.drop_last().push(all.last()));
        all.drop_last().lemma_filter_push(all.last(), keep);
    }
    let ghost old_done = done.deep_view();
    if byte_len(&piece) >= min {
        done.push(piece);
        assert(done.deep_view() =~= old_done.push(all.last()));
    }
    done
}

/// The lower-case alphanumeric runs of a text that have at least `min` bytes.
pub fn terms_of(s: &str, min: usize) -> (r: Vec<String>)
    ensures
        r.deep_view() == terms(s@, min as nat),
{
    let l = to_lowercase(s);
    let c = chars_of(&l);
    let mut cut: Vec<bool> = Vec::new();
    let mut i: usize = 0;
    while i < c.len()
        invariant
            i <= c.len(),
            c@ == lowercase(s@),
            cut@ == non_alphanumeric(c@).take(i as int),
        decreases c.len() - i,
    {
        cut.push(!c[i].is_alphanumeric());
        i += 1;
        assert(cut@ =~= non_alphanumeric(c@).take(i as int));
    }
    assert(cut@ =~= non_alphanumeric(c@));
    cut_long(&c, &cut, min)
}

/// The runs without white space that have at least `min` characters.
pub open spec fn words(s: Seq<char>, min: nat) -> Seq<Seq<char>> {
    pieces(s, white_spaces(s)).filter(|w: Seq<char>| w.len() >= min)
}

proof fn lemma_all_pieces_are_long(v: Seq<Seq<char>>)
    ensures
        long_pieces(v, 0) == v,
    decreases v.len(),
{
    let keep = |p: Seq<char>| encode_utf8(p).len() >= 0;
    reveal(Seq::filter);
    if v.len() > 0 {
        lemma_all_pieces_are_long(v.drop_last());
        assert(v =~= v.drop_last().push(v.last()));
        v.drop_last().lemma_filter_push(v.last(), keep);
    }
}

/// The runs without white space that have at least `min` characters.
pub fn words_of(s: &str, min: usize) -> (r: Vec<String>)
    ensures
        r.deep_view() == words(s@, min as nat),
{
    let c = chars_of(s);
    let mut cut: Vec<bool> = Vec::new();
    let mut i: usize = 0;
    while i < c.len()
        invariant
            i <= c.len(),
            c@ == s@,
            cut@ == white_spaces(c@).take(i as int),
        decreases c.len() - i,
    {
        cut.push(Strip::White.has(c[i]));
        i += 1;
        assert(cut@ =~= white_spaces(c@).take(i as int));
    }
    assert(cut@ =~= white_spaces(c@));
    let all = cut_long(&c, &cut, 0);
    let ghost keep = |w: Seq<char>| w.len() >= min;
    let ghost runs = all.deep_view();
    let mut out: Vec<String> = Vec::new();
    let mut j: usize = 0;
    proof {
        lemma_all_pieces_are_long(pieces(c@, cut@));
        reveal(Seq::filter);
        assert(out.deep_view() =~= runs.take(0).filter(keep));
    }
    while j < all.len()
        invariant
            j <= all.len(),
            runs == all.deep_view(),
            keep == (|w: Seq<char>| w.len() >= min),
            out.deep_view() == runs.take(j as int).filter(keep),
        decreases all.len() - j,
    {
        let ghost before = out.deep_view();
        proof {
            assert(runs.take(j + 1) =~= runs.take(j as int).push(runs[j as int]));
            runs.take(j as int).lemma_filter_push(runs[j as int], keep);
        }
        if chars_of(&all[j]).len() >= min {
            out.push(all[j].clone());
            assert(out.deep_view() =~= before.push(runs[j as int]));
        }
        j += 1;
    }
    assert(runs.take(j as int) =~= runs);
    out
}

/// The non-empty runs without a comma or a space.
pub fn listed_in(s: &str) -> (r: Vec<String>)
    ensures
        r.deep_view() == long_pieces(pieces(s@, commas_and_spaces(s@)), 1),
{
    let c = chars_of(s);
    let mut cut: Vec<bool> = Vec::new();
    let mut i: usize = 0;
    while i < c.len()
        invariant
            i <= c.len(),
            c@ == s@,
            cut@ == commas_and_spaces(c@).take(i as int),
        decreases c.len() - i,
    {
        cut.push(c[i] == ',' || c[i] == ' ');
        i += 1;
        assert(cut@ =~= commas_and_spaces(c@).take(i as int));
    }
    assert(cut@ =~= commas_and_spaces(c@));
    cut_long(&c, &cut, 1)
}

/// The part of a text before the first dot, or all of it.
pub open spec fn before_dot(s: Seq<char>) -> Seq<char>
    decreases s.len(),
{
    if s.len() == 0 || s[0] == '.' {
        Seq::empty()
    } else {
        seq![s[0]] + before_dot(s.drop_first())
    }
}

/// The part of a text before the first dot, or all of it.
pub fn up_to_dot<'a>(s: &'a str) -> (r: &'a str)
    ensures
        r@ == before_dot(s@),
{
    let c = chars_of(s);
    let mut i: usize = 0;
    assert(c@.skip(0) =~= c@);
    assert(before_dot(s@) =~= s@.take(0) + before_dot(c@.skip(0)));
    while i < c.len() && c[i] != '.'
        invariant
            i <= c.len(),
            c@ == s@,
            before_dot(s@) == s@.take(i as int) + before_dot(c@.skip(i as int)),
        decreases c.len() - i,
    {
        assert(c@.skip(i as int).drop_first() =~= c@.skip(i + 1));
        assert(s@.take(i as int) + seq![s@[i as int]] =~= s@.take(i + 1));
        assert(s@.take(i as int) + (seq![s@[i as int]] + before_dot(c@.skip(i + 1))) =~= s@.take(
            i + 1,
        ) + before_dot(c@.skip(i + 1)));
        i += 1;
    }
    assert(before_dot(c@.skip(i as int)) =~= Seq::empty());
    assert(s@.take(i as int) =~= s@.subrange(0, i as int));
    s.substring_char(0, i)
}

/// The texts one after the other, with `sep` between neighbours.
pub open spec fn joined(v: Seq<Seq<char>>, sep: Seq<char>) -> Seq<char>
    decreases v.len(),
{
    if v.len() == 0 {
        Seq::empty()
    } else if v.len() == 1 {
        v[0]
    } else {
        joined(v.drop_last(), sep) + sep + v.last()
    }
}

/// Writes the texts one after the other, with `sep` between neighbours.
pub fn join(v: &Vec<String>, sep: &str) -> (r: String)
    ensures
        r@ == joined(v.deep_view(), sep@),
{
    let mut out = String::new();
    let mut i: usize = 0;
    let ghost all = v.deep_view();
    while i < v.len()
        invariant
            i <= v.len(),
            all == v.deep_view(),
            out@ == joined(all.take(i as int), sep@),
        decreases v.len() - i,
    {
        assert(all.take(i + 1).drop_last() =~= all.take(i as int));
        if i > 0 {
            out.append(sep);
        }
        out.append(&v[i]);
        i += 1;
        assert(out@ =~= joined(all.take(i as int), sep@));
    }
    assert(all.take(i as int) =~= all);
    out
}

/// A text with every `from` replaced by the text `to`.
pub open spec fn replaced(s: Seq<char>, from: char, to: Seq<char>) -> Seq<char>
    decreases s.len(),
{
    if s.len() == 0 {
        s
    } else if s.last() == from {
        replaced(s.drop_last(), from, to) + to
    } else {
        replaced(s.drop_last(), from, to).push(s.last())
    }
}

/// Replaces every `from` by the text `to`.
pub fn replace_char(s: &str, from: char, to: &str) -> (r: String)
    ensures
        r@ == replaced(s@, from, to@),
{
    let c = chars_of(s);
    let mut out = String::new();
    let mut i: usize = 0;
    while i < c.len()
        invariant
            i <= c.len(),
            c@ == s@,
            out@ == replaced(s@.take(i as int), from, to@),
        decreases c.len() - i,
    {
        assert(s@.take(i + 1).drop_last() =~= s@.take(i as int));
        if c[i] == from {
            out.append(to);
        } else {
            out.push(c[i]);
        }
        i += 1;
    }
    assert(s@.take(i as int) =~= s@);
    out
}

/// A text with its first colon, if it has one, turned into a slash.
pub open spec fn first_colon_as_slash(s: Seq<char>) -> Seq<char>
    decreases s.len(),
{
    if s.len() == 0 {
        s
    } else if s[0] == ':' {
        seq!['/'] + s.drop_first()
    } else {
        seq![s[0]] + first_colon_as_slash(s.drop_first())
    }
}

/// Turns the first colon of a text, if it has one, into a slash.
pub fn slash_for_first_colon(s: &str) -> (r: String)
    ensures
        r@ == first_colon_as_slash(s@),
{
    let mut c = chars_of(s);
    let mut i: usize = 0;
    assert(c@.skip(0) =~= c@);
    assert(first_colon_as_slash(s@) =~= s@.take(0) + first_colon_as_slash(s@.skip(0)));
    while i < c.len() && c[i] != ':'
        invariant
            i <= c.len(),
            c@ == s@,
            first_colon_as_slash(s@) == s@.take(i as int) + first_colon_as_slash(
                s@.skip(i as int),
            ),
        decreases c.len() - i,
    {
        assert(s@.skip(i as int).drop_first() =~= s@.skip(i + 1));
        assert(s@.take(i as int) + (seq![s@[i as int]] + first_colon_as_slash(s@.skip(i + 1)))
            =~= s@.take(i + 1) + first_colon_as_slash(s@.skip(i + 1)));
        i += 1;
    }
    if i < c.len() {
        c.set(i, '/');
        assert(s@.take(i as int) + (seq!['/'] + s@.skip(i as int).drop_first()) =~= c@);
    } else {
        assert(s@.take(i as int) + s@.skip(i as int) =~= c@);
    }
    assert(c@.subrange(0, c.len() as int) =~= c@);
    let n = c.len();
    string_of(&c, 0, n)
}

/// An ASCII capital as its small letter, any other character as itself.
pub open spec fn ascii_lower(c: char) -> char {
    if 'A' <= c <= 'Z' {
        (c as int + 32) as char
    } else {
        c
    }
}

/// Whether two texts differ at most in the case of ASCII letters.
pub open spec fn same_ignoring_ascii_case(a: Seq<char>, b: Seq<char>) -> bool {
    &&& a.len() == b.len()
    &&& forall|i: int| 0 <= i < a.len() ==> ascii_lower(#[trigger] a[i]) == ascii_lower(b[i])
}

fn to_ascii_lower(c: char) -> (r: char)
    ensures
        r == ascii_lower(c),
{
    if 'A' <= c && c <= 'Z' {
        (c as u8 + 32u8) as char
    } else {
        c
    }
}

/// Whether two texts differ at most in the case of ASCII letters.
pub fn same_text_ignoring_case(a: &str, b: &str) -> (r: bool)
    ensures
        r == same_ignoring_ascii_case(a@, b@),
{
    let x = chars_of(a);
    let y = chars_of(b);
    if x.len() != y.len() {
        return false;
    }
    let mut i: usize = 0;
    while i < x.len()
        invariant
            i <= x.len(),
            x.len() == y.len(),
            x@ == a@,
            y@ == b@,
            forall|k: int| 0 <= k < i ==> ascii_lower(#[trigger] x@[k]) == ascii_lower(y@[k]),
        decreases x.len() - i,
    {
        if to_ascii_lower(x[i]) != to_ascii_lower(y[i]) {
            assert(ascii_lower(a@[i as int]) != ascii_lower(b@[i as int]));
            return false;
        }
        i += 1;
    }
    true
}

// --- Laws ------------------------------------------------------------------

/// A number that is written in decimal notation reads back as itself.
pub proof fn law_decimal_reads_back(n: u64)
    ensures
        unsigned_value(decimal(n as nat)) == Some(n),
{
    lemma_decimal_digits(n as nat);
}

/// A number is written in digits, at least one, that denote it.
pub(crate) proof fn lemma_decimal_digits(n: nat)
    ensures
        decimal(n).len() > 0,
        forall|i: int| 0 <= i < decimal(n).len() ==> is_digit(#[trigger] decimal(n)[i]),
        digits_value(decimal(n)) == n,
    decreases n,
{
    if n < 10 {
        assert(decimal(n).drop_last() =~= Seq::empty());
        assert(digits_value(Seq::empty()) == 0);
    } else {
        lemma_decimal_digits(n / 10);
        assert(decimal(n).drop_last() =~= decimal(n / 10));
    }
}

/// A text without its commas.
pub open spec fn without_commas(s: Seq<char>) -> Seq<char>
    decreases s.len(),
{
    if s.len() == 0 {
        s
    } else if s.last() == ',' {
        without_commas(s.drop_last())
    } else {
        without_commas(s.drop_last()).push(s.last())
    }
}

/// A grouped number is its decimal notation with commas in it, and the commas
/// stand exactly in front of every third digit from the right.
pub proof fn law_groups_of_three(n: nat)
    ensures
        without_commas(grouped(decimal(n))) == decimal(n),
        forall|i: int|
            0 <= i < grouped(decimal(n)).len() ==> ((#[trigger] grouped(decimal(n))[i] == ',')
                <==> (grouped(decimal(n)).len() - 1 - i) % 4 == 3),
{
    lemma_decimal_digits(n);
    lemma_groups(decimal(n));
}

proof fn lemma_groups(d: Seq<char>)
    requires
        forall|i: int| 0 <= i < d.len() ==> is_digit(#[trigger] d[i]),
    ensures
        without_commas(grouped(d)) == d,
        forall|i: int|
            0 <= i < grouped(d).len() ==> ((#[trigger] grouped(d)[i] == ',') <==> (grouped(d).len()
                - 1 - i) % 4 == 3),
    decreases d.len(),
{
    if d.len() <= 3 {
        lemma_without_commas_is_identity(d);
    } else {
        let head = d.take(d.len() - 3);
        let tail = d.skip(d.len() - 3);
        lemma_groups(head);
        lemma_without_commas_is_identity(tail);
        lemma_without_commas_joins(grouped(head).push(','), tail);
        assert(grouped(head).push(',').drop_last() =~= grouped(head));
        assert(head + tail =~= d);
    }
}

proof fn lemma_without_commas_is_identity(s: Seq<char>)
    requires
        forall|i: int| 0 <= i < s.len() ==> is_digit(#[trigger] s[i]),
    ensures
        without_commas(s) == s,
    decreases s.len(),
{
    if s.len() > 0 {
        lemma_without_commas_is_identity(s.drop_last());
        assert(is_digit(s[s.len() - 1]));
        assert(s.drop_last().push(s.last()) =~= s);
    }
}

proof fn lemma_without_commas_joins(a: Seq<char>, b: Seq<char>)
    ensures
        without_commas(a + b) == without_commas(a) + without_commas(b),
    decreases b.len(),
{
    if b.len() == 0 {
        assert(a + b =~= a);
        assert(without_commas(a) + b =~= without_commas(a));
    } else {
        lemma_without_commas_joins(a, b.drop_last());
        assert((a + b).drop_last() =~= a + b.drop_last());
        assert(without_commas(a + b) =~= without_commas(a) + without_commas(b));
    }
}

/// Trimming leaves no white space at either end, and trimming again changes
/// nothing.
pub proof fn law_trimmed_is_tight(s: Seq<char>)
    ensures
        trimmed(s).len() > 0 ==> !white_space(trimmed(s)[0]) && !white_space(trimmed(s).last()),
        trimmed(trimmed(s)) == trimmed(s),
{
    lemma_strip_start(s, Strip::White);
    lemma_strip_end(strip_start(s, Strip::White), Strip::White);
    let t = trimmed(s);
    lemma_strip_start(t, Strip::White);
    lemma_strip_end(t, Strip::White);
}

/// A text has no strippable character left at its start once stripped, and is
/// as it was where it has none.
pub(crate) proof fn lemma_strip_start(s: Seq<char>, what: Strip)
    ensures
        strip_start(s, what).len() > 0 ==> !what.spec_has(strip_start(s, what)[0]),
        s.len() == 0 || !what.spec_has(s[0]) ==> strip_start(s, what) == s,
    decreases s.len(),
{
    if s.len() > 0 && what.spec_has(s[0]) {
        lemma_strip_start(s.drop_first(), what);
    }
}

proof fn lemma_strip_end(s: Seq<char>, what: Strip)
    ensures
        strip_end(s, what).len() > 0 ==> !what.spec_has(strip_end(s, what).last()),
        strip_end(s, what).len() > 0 ==> strip_end(s, what)[0] == s[0],
        s.len() == 0 || !what.spec_has(s.last()) ==> strip_end(s, what) == s,
    decreases s.len(),
{
    if s.len() > 0 && what.spec_has(s.last()) {
        lemma_strip_end(s.drop_last(), what);
    }
}

} // verus!
