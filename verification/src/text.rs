//! Text primitives: equality, case folding, substring search, a total order
//! on strings, decimal rendering and the building of messages.

use vstd::prelude::*;
use vstd::string::StringExecFns;

verus! {

/// `==` on `str`, of the standard library: two string slices are equal
/// exactly when they hold the same characters in the same order.
pub assume_specification[ <str as PartialEq>::eq ](a: &str, b: &str) -> (r: bool)
    ensures
        r == (a@ == b@),
;

/// The lower-case form of a text, as `str::to_lowercase` of the standard
/// library computes it from the Unicode tables.
pub uninterp spec fn lowercase(s: Seq<char>) -> Seq<char>;

/// `str::to_lowercase` of the standard library. What it returns is a
/// function of the characters of its argument alone; that function is named
/// `lowercase`, and nothing more is claimed of it.
#[verifier::external_body]
pub(crate) fn to_lowercase(s: &str) -> (r: String)
    ensures
        r@ == lowercase(s@),
{
    s.to_lowercase()
}

/// The characters of a string, in order.
pub fn chars_of(s: &str) -> (r: Vec<char>)
    ensures
        r@ == s@,
{
    let mut out: Vec<char> = Vec::new();
    for c in it: s.chars()
        invariant
            out@ == it.seq().take(it.index() as int),
            it.seq() == s@,
    {
        out.push(c);
    }
    out
}

/// `needle` stands in `hay` at offset `i`.
pub open spec fn occurs_at(hay: Seq<char>, needle: Seq<char>, i: int) -> bool {
    &&& 0 <= i
    &&& i + needle.len() <= hay.len()
    &&& hay.subrange(i, i + needle.len()) == needle
}

/// `needle` is a contiguous part of `hay`. The empty text is part of every text.
pub open spec fn occurs_in(hay: Seq<char>, needle: Seq<char>) -> bool {
    exists|i: int| occurs_at(hay, needle, i)
}

/// Case-insensitive containment: the lower-case form of `query` is part of
/// the lower-case form of `text`.
pub open spec fn mentions(text: Seq<char>, query: Seq<char>) -> bool {
    occurs_in(lowercase(text), lowercase(query))
}

/// Whether `needle` stands in `hay` at offset `i`.
fn matches_at(hay: &Vec<char>, needle: &Vec<char>, i: usize) -> (r: bool)
    requires
        i + needle.len() <= hay.len(),
    ensures
        r == occurs_at(hay@, needle@, i as int),
{
    let mut j: usize = 0;
    while j < needle.len()
        invariant
            j <= needle.len(),
            i + needle.len() <= hay.len(),
            forall|k: int| 0 <= k < j ==> hay@[i + k] == needle@[k],
        decreases needle.len() - j,
    {
        if hay[i + j] != needle[j] {
            proof {
                let part = hay@.subrange(i as int, i + needle.len());
                assert(part[j as int] == hay@[i + j]);
            }
            return false;
        }
        j = j + 1;
    }
    assert(hay@.subrange(i as int, i + needle.len()) =~= needle@);
    true
}

/// Whether `needle` is a contiguous part of `hay`.
pub fn contains_chars(hay: &Vec<char>, needle: &Vec<char>) -> (r: bool)
    ensures
        r == occurs_in(hay@, needle@),
{
    if needle.len() == 0 {
        assert(hay@.subrange(0, 0) =~= needle@);
        assert(occurs_at(hay@, needle@, 0));
        return true;
    }
    if needle.len() > hay.len() {
        return false;
    }
    let last: usize = hay.len() - needle.len();
    let mut i: usize = 0;
    while i <= last
        invariant
            i <= last + 1,
            last == hay.len() - needle.len(),
            0 < needle.len() <= hay.len(),
            forall|k: int| 0 <= k < i ==> !occurs_at(hay@, needle@, k),
        decreases last + 1 - i,
    {
        if matches_at(hay, needle, i) {
            return true;
        }
        i = i + 1;
    }
    false
}

/// Whether `text` mentions the query whose lower-case characters are `query_lower`.
pub fn mentions_lowered(text: &str, query_lower: &Vec<char>) -> (r: bool)
    ensures
        r == occurs_in(lowercase(text@), query_lower@),
{
    let lowered = to_lowercase(text);
    let hay = chars_of(lowered.as_str());
    contains_chars(&hay, query_lower)
}

/// The order of two characters by their code points.
pub open spec fn char_lt(a: char, b: char) -> bool {
    (a as u32) < (b as u32)
}

/// Two characters are equal or ordered one way.
pub proof fn lemma_char_order(a: char, b: char)
    ensures
        a == b || char_lt(a, b) || char_lt(b, a),
{
}

/// `a` comes before `b` in the lexicographic order by code points: at the
/// first place `k` where they differ, `a` has ended or holds the smaller
/// character.
pub open spec fn text_lt(a: Seq<char>, b: Seq<char>) -> bool {
    exists|k: int| differ_at(a, b, k)
}

/// `a` and `b` agree on their first `k` characters, and at `k` either `a`
/// has ended while `b` goes on, or `a` holds the smaller character.
pub open spec fn differ_at(a: Seq<char>, b: Seq<char>, k: int) -> bool {
    &&& 0 <= k <= a.len()
    &&& k < b.len()
    &&& a.take(k) == b.take(k)
    &&& (k == a.len() || char_lt(a[k], b[k]))
}

/// The order is irreflexive.
pub proof fn lemma_text_lt_irreflexive(a: Seq<char>)
    ensures
        !text_lt(a, a),
{
}

/// Two texts agree up to any place before the one at which they differ.
proof fn lemma_take_prefix(a: Seq<char>, b: Seq<char>, k: int, j: int)
    requires
        0 <= j <= k <= a.len(),
        k <= b.len(),
        a.take(k) == b.take(k),
    ensures
        a.take(j) == b.take(j),
        j < k ==> a[j] == b[j],
{
    assert(a.take(j) =~= a.take(k).take(j));
    assert(b.take(j) =~= b.take(k).take(j));
    if j < k {
        assert(a[j] == a.take(k)[j]);
        assert(b[j] == b.take(k)[j]);
    }
}

/// The order is transitive.
pub proof fn lemma_text_lt_transitive(a: Seq<char>, b: Seq<char>, c: Seq<char>)
    requires
        text_lt(a, b),
        text_lt(b, c),
    ensures
        text_lt(a, c),
{
    let k1 = choose|k: int| differ_at(a, b, k);
    let k2 = choose|k: int| differ_at(b, c, k);
    if k1 <= k2 {
        lemma_take_prefix(b, c, k2, k1);
        assert(differ_at(a, c, k1));
    } else {
        lemma_take_prefix(a, b, k1, k2);
        assert(differ_at(a, c, k2));
    }
}

/// No two texts come before each other.
pub proof fn lemma_text_lt_asymmetric(a: Seq<char>, b: Seq<char>)
    requires
        text_lt(a, b),
    ensures
        !text_lt(b, a),
{
    if text_lt(b, a) {
        lemma_text_lt_transitive(a, b, a);
    }
}

/// Whether `a` comes before `b` in the lexicographic order by code points.
pub fn text_less(a: &str, b: &str) -> (r: bool)
    ensures
        r == text_lt(a@, b@),
{
    let x = chars_of(a);
    let y = chars_of(b);
    let mut i: usize = 0;
    while i < x.len() && i < y.len()
        invariant
            i <= x.len(),
            i <= y.len(),
            x@.take(i as int) == y@.take(i as int),
            x@ == a@,
            y@ == b@,
        decreases x.len() - i,
    {
        let p: char = x[i];
        let q: char = y[i];
        proof {
            lemma_char_order(p, q);
        }
        if (p as u32) < (q as u32) {
            assert(differ_at(a@, b@, i as int));
            return true;
        }
        if (q as u32) < (p as u32) {
            proof {
                assert(differ_at(b@, a@, i as int));
                lemma_text_lt_asymmetric(b@, a@);
            }
            return false;
        }
        assert(x@[i as int] == y@[i as int]);
        assert(x@.take(i + 1) =~= x@.take(i as int).push(x@[i as int]));
        assert(y@.take(i + 1) =~= y@.take(i as int).push(y@[i as int]));
        i = i + 1;
    }
    if i < y.len() {
        assert(differ_at(a@, b@, i as int));
        true
    } else {
        proof {
            assert(y@.take(i as int) =~= y@);
            if text_lt(a@, b@) {
                let k = choose|k: int| differ_at(a@, b@, k);
                assert(k < i);
                lemma_take_prefix(x@, y@, i as int, k);
            }
        }
        false
    }
}

/// Any two texts are equal or ordered one way.
pub proof fn lemma_text_lt_total(a: Seq<char>, b: Seq<char>)
    ensures
        a == b || text_lt(a, b) || text_lt(b, a),
{
    let k = agreement(a, b, 0);
    assert(a.take(0) =~= b.take(0));
    lemma_agreement(a, b, 0);
    if k == a.len() && k == b.len() {
        assert(a.take(k) =~= a);
        assert(b.take(k) =~= b);
    } else if k == a.len() {
        assert(differ_at(a, b, k));
    } else if k == b.len() {
        assert(differ_at(b, a, k));
    } else if char_lt(a[k], b[k]) {
        assert(differ_at(a, b, k));
    } else {
        lemma_char_order(a[k], b[k]);
        assert(char_lt(b[k], a[k]));
        assert(differ_at(b, a, k));
    }
}

/// The first place at or after `from` where `a` and `b` differ or one ends.
spec fn agreement(a: Seq<char>, b: Seq<char>, from: int) -> int
    decreases a.len() - from,
{
    if 0 <= from < a.len() && from < b.len() && a[from] == b[from] {
        agreement(a, b, from + 1)
    } else {
        from
    }
}

/// Up to that place the two texts agree, and at it they differ or one ends.
proof fn lemma_agreement(a: Seq<char>, b: Seq<char>, from: int)
    requires
        0 <= from <= a.len(),
        from <= b.len(),
        a.take(from) == b.take(from),
    ensures
        ({
            let k = agreement(a, b, from);
            &&& from <= k <= a.len()
            &&& k <= b.len()
            &&& a.take(k) == b.take(k)
            &&& k < a.len() && k < b.len() ==> a[k] != b[k]
        }),
    decreases a.len() - from,
{
    if from < a.len() && from < b.len() && a[from] == b[from] {
        assert(a.take(from + 1) =~= a.take(from).push(a[from]));
        assert(b.take(from + 1) =~= b.take(from).push(b[from]));
        lemma_agreement(a, b, from + 1);
    }
}

/// The decimal digit that stands for `d`.
pub open spec fn digit_char(d: int) -> char {
    if d == 0 {
        '0'
    } else if d == 1 {
        '1'
    } else if d == 2 {
        '2'
    } else if d == 3 {
        '3'
    } else if d == 4 {
        '4'
    } else if d == 5 {
        '5'
    } else if d == 6 {
        '6'
    } else if d == 7 {
        '7'
    } else if d == 8 {
        '8'
    } else {
        '9'
    }
}

/// The decimal notation of `n`, without leading zeros.
pub open spec fn decimal(n: nat) -> Seq<char>
    decreases n,
{
    if n < 10 {
        seq![digit_char(n as int)]
    } else {
        decimal(n / 10).push(digit_char((n % 10) as int))
    }
}

/// The decimal digit that stands for `d`, as a text.
fn digit_text(d: usize) -> (r: &'static str)
    requires
        d < 10,
    ensures
        r@ == seq![digit_char(d as int)],
{
    proof {
        reveal_strlit("0");
        reveal_strlit("1");
        reveal_strlit("2");
        reveal_strlit("3");
        reveal_strlit("4");
        reveal_strlit("5");
        reveal_strlit("6");
        reveal_strlit("7");
        reveal_strlit("8");
        reveal_strlit("9");
    }
    let r = if d == 0 {
        "0"
    } else if d == 1 {
        "1"
    } else if d == 2 {
        "2"
    } else if d == 3 {
        "3"
    } else if d == 4 {
        "4"
    } else if d == 5 {
        "5"
    } else if d == 6 {
        "6"
    } else if d == 7 {
        "7"
    } else if d == 8 {
        "8"
    } else {
        "9"
    };
    assert(r@ =~= seq![digit_char(d as int)]);
    r
}

/// The decimal notation of `n`.
pub fn decimal_text(n: usize) -> (r: String)
    ensures
        r@ == decimal(n as nat),
    decreases n,
{
    if n < 10 {
        String::from_str(digit_text(n))
    } else {
        let head = decimal_text(n / 10);
        let r = head.concat(digit_text(n % 10));
        assert(r@ =~= decimal(n as nat));
        r
    }
}

/// `a` followed by `b`.
pub fn join2(a: &str, b: &str) -> (r: String)
    ensures
        r@ == a@ + b@,
{
    String::from_str(a).concat(b)
}

/// `a`, `b` and `c` in a row.
pub fn join3(a: &str, b: &str, c: &str) -> (r: String)
    ensures
        r@ == a@ + b@ + c@,
{
    String::from_str(a).concat(b).concat(c)
}

/// `a`, `b`, `c` and `d` in a row.
pub fn join4(a: &str, b: &str, c: &str, d: &str) -> (r: String)
    ensures
        r@ == a@ + b@ + c@ + d@,
{
    String::from_str(a).concat(b).concat(c).concat(d)
}

/// Whether `needle` is one of `items`.
pub fn text_in(items: &[String], needle: &str) -> (r: bool)
    ensures
        r == texts(items@).contains(needle@),
{
    let mut i: usize = 0;
    while i < items.len()
        invariant
            i <= items.len(),
            forall|k: int| 0 <= k < i ==> items@[k]@ != needle@,
        decreases items.len() - i,
    {
        if *items[i].as_str() == *needle {
            assert(texts(items@)[i as int] == needle@);
            return true;
        }
        i = i + 1;
    }
    false
}

/// The index of the first of `keys` that equals `key`, or the length of
/// `keys` where none does.
pub open spec fn position(keys: Seq<Seq<char>>, key: Seq<char>) -> int
    decreases keys.len(),
{
    if keys.len() == 0 {
        0
    } else if keys[0] == key {
        0
    } else {
        1 + position(keys.drop_first(), key)
    }
}

/// `position` finds the first occurrence, and the length exactly when there is none.
pub proof fn lemma_position(keys: Seq<Seq<char>>, key: Seq<char>)
    ensures
        0 <= position(keys, key) <= keys.len(),
        position(keys, key) < keys.len() ==> keys[position(keys, key)] == key,
        forall|j: int| 0 <= j < position(keys, key) ==> keys[j] != key,
        position(keys, key) < keys.len() <==> keys.contains(key),
    decreases keys.len(),
{
    if keys.len() == 0 {
    } else if keys[0] == key {
    } else {
        let rest = keys.drop_first();
        lemma_position(rest, key);
        assert forall|j: int| 0 <= j < position(keys, key) implies keys[j] != key by {
            if j > 0 {
                assert(keys[j] == rest[j - 1]);
            }
        }
        if position(keys, key) < keys.len() {
            assert(keys[position(keys, key)] == rest[position(rest, key)]);
        }
        if keys.contains(key) {
            let i = choose|i: int| 0 <= i < keys.len() && keys[i] == key;
            assert(rest[i - 1] == key);
        }
    }
}

/// An index that holds `key`, with no earlier one that does, is its position.
pub proof fn lemma_position_is(keys: Seq<Seq<char>>, key: Seq<char>, i: int)
    requires
        0 <= i <= keys.len(),
        i < keys.len() ==> keys[i] == key,
        forall|j: int| 0 <= j < i ==> keys[j] != key,
    ensures
        position(keys, key) == i,
{
    lemma_position(keys, key);
    let p = position(keys, key);
    if p < i {
        assert(keys[p] == key);
    } else if p > i {
        assert(keys[i] == key);
    }
}

/// The texts that a list of strings holds.
pub open spec fn texts(items: Seq<String>) -> Seq<Seq<char>> {
    items.map_values(|s: String| s@)
}

/// A copy of a list of strings.
pub fn copy_texts(items: &Vec<String>) -> (r: Vec<String>)
    ensures
        texts(r@) == texts(items@),
{
    let out = items.clone();
    assert(texts(out@) =~= texts(items@));
    out
}

} // verus!
