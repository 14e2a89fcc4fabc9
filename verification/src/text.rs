//! Text handling. Strings are specified by their view, a `Seq<char>`.
use vstd::prelude::*;
use vstd::string::*;

verus! {

/// `String::push` of the standard library appends one character to the string.
pub assume_specification[ String::push ](s: &mut String, c: char)
    ensures
        final(s)@ == old(s)@.push(c),
;

/// Whether the standard library counts `c` as white space (the Unicode property
/// `White_Space`).
pub uninterp spec fn is_space(c: char) -> bool;

/// `char::is_whitespace` of the standard library decides `is_space`: its answer
/// depends on the character alone.
pub assume_specification[ char::is_whitespace ](c: char) -> (b: bool)
    ensures
        b == is_space(c),
;

/// The lower-case form of a text, as the standard library's `str::to_lowercase`
/// gives it (Unicode `Lowercase` mapping, character by character, with the special
/// rule for a final sigma).
pub uninterp spec fn lowercase(s: Seq<char>) -> Seq<char>;

/// Calls `str::to_lowercase`. The result depends on the text alone and is named
/// `lowercase`.
#[verifier::external_body]
pub(crate) fn lower(s: &str) -> (low: String)
    ensures
        low@ == lowercase(s@),
{
    s.to_lowercase()
}

/// The text without white space at either end.
pub open spec fn trim_of(s: Seq<char>) -> Seq<char>
    decreases s.len(),
{
    if s.len() == 0 {
        s
    } else if is_space(s[0]) {
        trim_of(s.drop_first())
    } else if is_space(s.last()) {
        trim_of(s.drop_last())
    } else {
        s
    }
}

/// `needle` stands in `hay` at index `i`.
pub open spec fn occurs_at(hay: Seq<char>, needle: Seq<char>, i: int) -> bool {
    0 <= i && i + needle.len() <= hay.len() && hay.subrange(i, i + needle.len()) == needle
}

/// `i` is the first index at or behind `from` at which `needle` stands in `hay`.
pub open spec fn is_first(hay: Seq<char>, needle: Seq<char>, from: int, i: int) -> bool {
    from <= i && occurs_at(hay, needle, i) && forall|j: int|
        from <= j < i ==> !occurs_at(hay, needle, j)
}

/// The first index at or behind `from` at which `needle` stands in `hay`.
pub open spec fn first_occurrence(hay: Seq<char>, needle: Seq<char>, from: int) -> Option<int> {
    if exists|i: int| is_first(hay, needle, from, i) {
        Some(choose|i: int| is_first(hay, needle, from, i))
    } else {
        None
    }
}

/// `i` is the last index at or behind `from` at which `needle` stands in `hay`.
pub open spec fn is_last(hay: Seq<char>, needle: Seq<char>, from: int, i: int) -> bool {
    from <= i && occurs_at(hay, needle, i) && forall|j: int| i < j ==> !occurs_at(hay, needle, j)
}

/// The last index at or behind `from` at which `needle` stands in `hay`.
pub open spec fn last_occurrence(hay: Seq<char>, needle: Seq<char>, from: int) -> Option<int> {
    if exists|i: int| is_last(hay, needle, from, i) {
        Some(choose|i: int| is_last(hay, needle, from, i))
    } else {
        None
    }
}

/// `needle` stands somewhere in `hay`.
pub open spec fn occurs_in(hay: Seq<char>, needle: Seq<char>) -> bool {
    exists|i: int| occurs_at(hay, needle, i)
}

/// The text without its underscores.
pub open spec fn plain_of(s: Seq<char>) -> Seq<char> {
    s.filter(|c: char| c != '_')
}

/// The decimal digit for `d`, which is below ten.
pub open spec fn digit_of(d: nat) -> char {
    ((48 + d) as u8) as char
}

/// The decimal numeral of `n`, without leading zeros.
pub open spec fn numeral_of(n: nat) -> Seq<char>
    decreases n,
{
    if n < 10 {
        seq![digit_of(n)]
    } else {
        numeral_of(n / 10).push(digit_of(n % 10))
    }
}

/// Whether `a` comes before `b` in the order of texts: character by character by
/// code point, a text before every text that it begins.
pub open spec fn text_before(a: Seq<char>, b: Seq<char>) -> bool
    decreases a.len(),
{
    if b.len() == 0 {
        false
    } else if a.len() == 0 {
        true
    } else if a[0] != b[0] {
        (a[0] as int) < (b[0] as int)
    } else {
        text_before(a.drop_first(), b.drop_first())
    }
}

/// The code point of a character is a 32-bit number.
pub proof fn lemma_code_point(c: char)
    ensures
        c as u32 == c as int,
{
}

/// Of two different texts one comes before the other.
pub proof fn lemma_text_order_total(a: Seq<char>, b: Seq<char>)
    ensures
        text_before(a, b) || text_before(b, a) || a == b,
        !(text_before(a, b) && text_before(b, a)),
    decreases a.len(),
{
    if a.len() > 0 && b.len() > 0 && a[0] == b[0] {
        lemma_text_order_total(a.drop_first(), b.drop_first());
        if a.drop_first() == b.drop_first() {
            assert(a =~= seq![a[0]] + a.drop_first());
            assert(b =~= seq![b[0]] + b.drop_first());
        }
    } else if a.len() == 0 && b.len() == 0 {
        assert(a =~= b);
    }
}

/// What comes before a text that comes before a third comes before the third.
pub proof fn lemma_text_order_transitive(a: Seq<char>, b: Seq<char>, c: Seq<char>)
    requires
        text_before(a, b),
        text_before(b, c),
    ensures
        text_before(a, c),
    decreases a.len(),
{
    if a.len() > 0 && a[0] == b[0] && b[0] == c[0] {
        lemma_text_order_transitive(a.drop_first(), b.drop_first(), c.drop_first());
    }
}

/// There is one first occurrence at most.
pub proof fn lemma_first_is_one(hay: Seq<char>, needle: Seq<char>, from: int, i: int)
    requires
        is_first(hay, needle, from, i),
    ensures
        first_occurrence(hay, needle, from) == Some(i),
{
    let c: int = choose|c: int| is_first(hay, needle, from, c);
    assert(is_first(hay, needle, from, c));
    if c < i {
        assert(!occurs_at(hay, needle, c));
    } else if i < c {
        assert(!occurs_at(hay, needle, i));
    }
}

/// There is one last occurrence at most.
pub proof fn lemma_last_is_one(hay: Seq<char>, needle: Seq<char>, from: int, i: int)
    requires
        is_last(hay, needle, from, i),
    ensures
        last_occurrence(hay, needle, from) == Some(i),
{
    let c: int = choose|c: int| is_last(hay, needle, from, c);
    assert(is_last(hay, needle, from, c));
    if c < i {
        assert(!occurs_at(hay, needle, i));
    } else if i < c {
        assert(!occurs_at(hay, needle, c));
    }
}

/// The characters of `s`.
pub fn chars_of(s: &str) -> (v: Vec<char>)
    ensures
        v@ == s@,
{
    let mut v: Vec<char> = Vec::new();
    for c in it: s.chars()
        invariant
            v@ == it.seq().take(it.index() as int),
            it.seq() == s@,
    {
        v.push(c);
    }
    v
}

/// The text made of the characters `v[from..to]`.
pub fn text_between(v: &Vec<char>, from: usize, to: usize) -> (s: String)
    requires
        from <= to <= v.len(),
    ensures
        s@ == v@.subrange(from as int, to as int),
{
    let mut s = String::new();
    let mut i: usize = from;
    while i < to
        invariant
            from <= i <= to <= v.len(),
            s@ == v@.subrange(from as int, i as int),
        decreases to - i,
    {
        s.push(v[i]);
        proof {
            assert(v@.subrange(from as int, i + 1) =~= v@.subrange(from as int, i as int).push(
                v@[i as int],
            ));
        }
        i += 1;
    }
    s
}

/// The text made of the characters of `v`.
pub fn text_of(v: &Vec<char>) -> (s: String)
    ensures
        s@ == v@,
{
    let s = text_between(v, 0, v.len());
    assert(v@.subrange(0, v.len() as int) =~= v@);
    s
}

/// Whether two texts are the same.
pub fn same_text(a: &str, b: &str) -> (same: bool)
    ensures
        same == (a@ == b@),
{
    let x = a.to_owned();
    let y = b.to_owned();
    x == y
}

/// Whether two texts are the same once both are in lower case.
pub fn same_ignoring_case(a: &str, b: &str) -> (same: bool)
    ensures
        same == (lowercase(a@) == lowercase(b@)),
{
    let x = lower(a);
    let y = lower(b);
    x == y
}

/// Whether `a` comes before `b` in the order of texts.
pub fn comes_before(a: &str, b: &str) -> (before: bool)
    ensures
        before == text_before(a@, b@),
{
    let x = chars_of(a);
    let y = chars_of(b);
    let mut i: usize = 0;
    proof {
        assert(x@.skip(0) =~= x@);
        assert(y@.skip(0) =~= y@);
    }
    while i < x.len() && i < y.len()
        invariant
            i <= x.len(),
            i <= y.len(),
            x@ == a@,
            y@ == b@,
            text_before(x@, y@) == text_before(x@.skip(i as int), y@.skip(i as int)),
        decreases x.len() - i,
    {
        proof {
            assert(x@.skip(i as int)[0] == x@[i as int]);
            assert(y@.skip(i as int)[0] == y@[i as int]);
            assert(x@.skip(i as int).drop_first() =~= x@.skip(i + 1));
            assert(y@.skip(i as int).drop_first() =~= y@.skip(i + 1));
        }
        if x[i] != y[i] {
            let cx: char = x[i];
            let cy: char = y[i];
            proof {
                lemma_code_point(cx);
                lemma_code_point(cy);
            }
            return (cx as u32) < (cy as u32);
        }
        i += 1;
    }
    i < y.len()
}

/// `a` followed by `b`.
pub fn joined(a: &str, b: &str) -> (s: String)
    ensures
        s@ == a@ + b@,
{
    let mut s = a.to_owned();
    s.append(b);
    s
}

/// The text without its underscores.
pub fn without_underscores(s: &str) -> (plain: String)
    ensures
        plain@ == plain_of(s@),
{
    let v = chars_of(s);
    let mut plain = String::new();
    let mut i: usize = 0;
    while i < v.len()
        invariant
            i <= v.len(),
            plain@ == plain_of(v@.take(i as int)),
        decreases v.len() - i,
    {
        proof {
            assert(v@.take(i + 1).drop_last() =~= v@.take(i as int));
            reveal(Seq::filter);
        }
        if v[i] != '_' {
            plain.push(v[i]);
        }
        i += 1;
    }
    assert(v@.take(i as int) =~= v@);
    plain
}

/// The bounds of `v` without white space at either end.
pub fn trim_bounds(v: &Vec<char>) -> (bounds: (usize, usize))
    ensures
        bounds.0 <= bounds.1 <= v.len(),
        v@.subrange(bounds.0 as int, bounds.1 as int) == trim_of(v@),
{
    let mut a: usize = 0;
    let mut b: usize = v.len();
    assert(v@.subrange(0, v.len() as int) =~= v@);
    while a < b && v[a].is_whitespace()
        invariant
            a <= b <= v.len(),
            trim_of(v@) == trim_of(v@.subrange(a as int, b as int)),
        decreases b - a,
    {
        proof {
            assert(v@.subrange(a as int, b as int).drop_first() =~= v@.subrange(a + 1, b as int));
        }
        a += 1;
    }
    while a < b && v[b - 1].is_whitespace()
        invariant
            a <= b <= v.len(),
            trim_of(v@) == trim_of(v@.subrange(a as int, b as int)),
            a < b ==> !is_space(v@[a as int]),
        decreases b - a,
    {
        proof {
            assert(v@.subrange(a as int, b as int).drop_last() =~= v@.subrange(a as int, b - 1));
        }
        b -= 1;
    }
    (a, b)
}

/// The text without white space at either end.
pub fn trimmed(s: &str) -> (t: String)
    ensures
        t@ == trim_of(s@),
{
    let v = chars_of(s);
    let (a, b) = trim_bounds(&v);
    text_between(&v, a, b)
}

/// Whether `needle` stands in `hay` at index `i`.
pub fn matches_at(hay: &Vec<char>, needle: &Vec<char>, i: usize) -> (hit: bool)
    ensures
        hit == occurs_at(hay@, needle@, i as int),
{
    if needle.len() > hay.len() || i > hay.len() - needle.len() {
        return false;
    }
    let mut k: usize = 0;
    while k < needle.len()
        invariant
            k <= needle.len(),
            i + needle.len() <= hay.len(),
            forall|j: int| 0 <= j < k ==> hay@[i + j] == needle@[j],
        decreases needle.len() - k,
    {
        if hay[i + k] != needle[k] {
            assert(hay@.subrange(i as int, i + needle.len())[k as int] != needle@[k as int]);
            return false;
        }
        k += 1;
    }
    assert(hay@.subrange(i as int, i + needle.len()) =~= needle@);
    true
}

/// The first index at or behind `from` at which `needle` stands in `hay`.
pub fn find_from(hay: &Vec<char>, needle: &Vec<char>, from: usize) -> (found: Option<usize>)
    ensures
        match found {
            Some(i) => is_first(hay@, needle@, from as int, i as int) && i <= hay.len()
                && first_occurrence(hay@, needle@, from as int) == Some(i as int),
            None => first_occurrence(hay@, needle@, from as int) is None && forall|j: int|
                from <= j ==> !occurs_at(hay@, needle@, j),
        },
{
    if from > hay.len() {
        return None;
    }
    let mut i: usize = from;
    while i < hay.len()
        invariant
            from <= i <= hay.len(),
            forall|j: int| from <= j < i ==> !occurs_at(hay@, needle@, j),
        decreases hay.len() - i,
    {
        if matches_at(hay, needle, i) {
            proof {
                lemma_first_is_one(hay@, needle@, from as int, i as int);
            }
            return Some(i);
        }
        i += 1;
    }
    if matches_at(hay, needle, i) {
        proof {
            lemma_first_is_one(hay@, needle@, from as int, i as int);
        }
        Some(i)
    } else {
        None
    }
}

/// The last index at or behind `from` at which `needle` stands in `hay`.
pub fn find_last_from(hay: &Vec<char>, needle: &Vec<char>, from: usize) -> (found: Option<usize>)
    ensures
        match found {
            Some(i) => is_last(hay@, needle@, from as int, i as int) && i <= hay.len()
                && last_occurrence(hay@, needle@, from as int) == Some(i as int),
            None => last_occurrence(hay@, needle@, from as int) is None && forall|j: int|
                from <= j ==> !occurs_at(hay@, needle@, j),
        },
{
    if from > hay.len() {
        return None;
    }
    let mut last: Option<usize> = None;
    let mut i: usize = from;
    while i < hay.len()
        invariant
            from <= i <= hay.len(),
            match last {
                Some(l) => from <= l < i && occurs_at(hay@, needle@, l as int) && forall|j: int|
                    l < j < i ==> !occurs_at(hay@, needle@, j),
                None => forall|j: int| from <= j < i ==> !occurs_at(hay@, needle@, j),
            },
        decreases hay.len() - i,
    {
        if matches_at(hay, needle, i) {
            last = Some(i);
        }
        i += 1;
    }
    let found = if matches_at(hay, needle, i) {
        Some(i)
    } else {
        last
    };
    proof {
        match found {
            Some(l) => {
                lemma_last_is_one(hay@, needle@, from as int, l as int);
            },
            None => {},
        }
    }
    found
}

/// Whether `needle` stands somewhere in `hay`.
pub fn contains_text(hay: &str, needle: &str) -> (hit: bool)
    ensures
        hit == occurs_in(hay@, needle@),
{
    let h = chars_of(hay);
    let n = chars_of(needle);
    find_from(&h, &n, 0).is_some()
}

/// The decimal numeral of `n`.
pub fn numeral(n: usize) -> (s: String)
    ensures
        s@ == numeral_of(n as nat),
    decreases n,
{
    if n < 10 {
        let mut s = String::new();
        s.push((48u8 + n as u8) as char);
        assert(s@ =~= seq![digit_of(n as nat)]);
        s
    } else {
        let mut s = numeral(n / 10);
        s.push((48u8 + (n % 10) as u8) as char);
        s
    }
}

} // verus!
