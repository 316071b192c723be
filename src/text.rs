//! Character-level helpers shared by the document and tag-expression parsers.

use vstd::prelude::*;

verus! {

/// Unicode `White_Space`, the set that `char::is_whitespace` tests.
pub open spec fn is_ws(c: char) -> bool {
    let u = c as u32;
    (0x09 <= u && u <= 0x0d) || u == 0x20 || u == 0x85 || u == 0xa0 || u == 0x1680
        || (0x2000 <= u && u <= 0x200a) || u == 0x2028 || u == 0x2029 || u == 0x202f
        || u == 0x205f || u == 0x3000
}

pub fn is_whitespace(c: char) -> (r: bool)
    ensures
        r == is_ws(c),
{
    let u = c as u32;
    (0x09 <= u && u <= 0x0d) || u == 0x20 || u == 0x85 || u == 0xa0 || u == 0x1680
        || (0x2000 <= u && u <= 0x200a) || u == 0x2028 || u == 0x2029 || u == 0x202f
        || u == 0x205f || u == 0x3000
}

/// Number of bytes that UTF-8 uses for `c`.
pub open spec fn utf8_width(c: char) -> nat {
    let u = c as u32;
    if u < 0x80 {
        1
    } else if u < 0x800 {
        2
    } else if u < 0x10000 {
        3
    } else {
        4
    }
}

pub fn char_width(c: char) -> (r: usize)
    ensures
        r == utf8_width(c),
{
    let u = c as u32;
    if u < 0x80 {
        1
    } else if u < 0x800 {
        2
    } else if u < 0x10000 {
        3
    } else {
        4
    }
}

/// Byte offset, in UTF-8, of the character at index `i` of `cs`.
pub open spec fn byte_offset(cs: Seq<char>, i: int) -> nat
    decreases i,
{
    if i <= 0 || cs.len() == 0 {
        0
    } else if i > cs.len() {
        byte_offset(cs, cs.len() as int)
    } else {
        byte_offset(cs, i - 1) + utf8_width(cs[i - 1])
    }
}

pub fn chars_of(s: &str) -> (r: Vec<char>)
    ensures
        r@ == s@,
{
    let mut r: Vec<char> = Vec::new();
    for c in it: s.chars()
        invariant
            r@ == it.seq().take(it.index() as int),
    {
        r.push(c);
    }
    r
}

/// Relies on `String::push`: appends one character.
#[verifier::external_body]
pub fn push_char(s: &mut String, c: char)
    ensures
        final(s)@ == old(s)@.push(c),
{
    s.push(c);
}

/// The characters `cs[from..to]` as a `String`.
pub fn string_of(cs: &Vec<char>, from: usize, to: usize) -> (r: String)
    requires
        from <= to <= cs@.len(),
    ensures
        r@ == cs@.subrange(from as int, to as int),
{
    let mut r = String::new();
    let mut i = from;
    while i < to
        invariant
            from <= i <= to <= cs@.len(),
            r@ == cs@.subrange(from as int, i as int),
        decreases to - i,
    {
        push_char(&mut r, cs[i]);
        assert(cs@.subrange(from as int, i + 1) == cs@.subrange(from as int, i as int).push(cs@[i as int]));
        i += 1;
    }
    r
}


pub fn str_eq(a: &str, b: &str) -> (r: bool)
    ensures
        r == (a@ == b@),
{
    let x = chars_of(a);
    let y = chars_of(b);
    chars_eq(&x, &y)
}

pub fn chars_eq(x: &Vec<char>, y: &Vec<char>) -> (r: bool)
    ensures
        r == (x@ == y@),
{
    if x.len() != y.len() {
        return false;
    }
    let mut i: usize = 0;
    while i < x.len()
        invariant
            x@.len() == y@.len(),
            i <= x@.len(),
            forall|k: int| 0 <= k < i ==> x@[k] == y@[k],
        decreases x@.len() - i,
    {
        if x[i] != y[i] {
            return false;
        }
        i += 1;
    }
    assert(x@ =~= y@);
    true
}

/// Lexicographic order on character sequences, by code point: the order of
/// `str`'s `Ord`.
pub open spec fn lex_le(a: Seq<char>, b: Seq<char>) -> bool
    decreases a.len(),
{
    if a.len() == 0 {
        true
    } else if b.len() == 0 {
        false
    } else if (a[0] as u32) < (b[0] as u32) {
        true
    } else if (a[0] as u32) == (b[0] as u32) {
        lex_le(a.drop_first(), b.drop_first())
    } else {
        false
    }
}

proof fn lemma_lex_total(a: Seq<char>, b: Seq<char>)
    ensures
        lex_le(a, b) || lex_le(b, a),
    decreases a.len(),
{
    if a.len() > 0 && b.len() > 0 && (a[0] as u32) == (b[0] as u32) {
        lemma_lex_total(a.drop_first(), b.drop_first());
    }
}

proof fn lemma_lex_trans(a: Seq<char>, b: Seq<char>, c: Seq<char>)
    requires
        lex_le(a, b),
        lex_le(b, c),
    ensures
        lex_le(a, c),
    decreases a.len(),
{
    if a.len() > 0 && b.len() > 0 && c.len() > 0 && (a[0] as u32) == (b[0] as u32) && (b[0] as u32) == (c[0] as u32) {
        lemma_lex_trans(a.drop_first(), b.drop_first(), c.drop_first());
    }
}

fn lex_le_exec(a: &str, b: &str) -> (r: bool)
    ensures
        r == lex_le(a@, b@),
{
    let x = chars_of(a);
    let y = chars_of(b);
    let mut i: usize = 0;
    assert(x@.skip(0) == x@);
    assert(y@.skip(0) == y@);
    while i < x.len() && i < y.len() && (x[i] as u32) == (y[i] as u32)
        invariant
            i <= x@.len(),
            i <= y@.len(),
            x@ == a@,
            y@ == b@,
            lex_le(a@, b@) == lex_le(x@.skip(i as int), y@.skip(i as int)),
        decreases x@.len() - i,
    {
        assert(x@.skip(i as int).drop_first() == x@.skip(i + 1));
        assert(y@.skip(i as int).drop_first() == y@.skip(i + 1));
        i += 1;
    }
    if i == x.len() {
        true
    } else if i == y.len() {
        false
    } else {
        (x[i] as u32) < (y[i] as u32)
    }
}

proof fn lemma_code_point_injective(c: char, d: char)
    requires
        (c as u32) == (d as u32),
    ensures
        c == d,
{
}

/// Compares `a` and `b` in the order of `lex_le`.
pub fn compare(a: &str, b: &str) -> (r: core::cmp::Ordering)
    ensures
        (r is Equal) == (a@ == b@),
        (r is Less) == (lex_le(a@, b@) && a@ != b@),
{
    let x = chars_of(a);
    let y = chars_of(b);
    let mut i: usize = 0;
    assert(x@.skip(0) == x@);
    assert(y@.skip(0) == y@);
    while i < x.len() && i < y.len() && x[i] == y[i]
        invariant
            i <= x@.len(),
            i <= y@.len(),
            x@ == a@,
            y@ == b@,
            forall|k: int| 0 <= k < i ==> x@[k] == y@[k],
            lex_le(a@, b@) == lex_le(x@.skip(i as int), y@.skip(i as int)),
        decreases x@.len() - i,
    {
        assert(x@.skip(i as int).drop_first() == x@.skip(i + 1));
        assert(y@.skip(i as int).drop_first() == y@.skip(i + 1));
        i += 1;
    }
    if i == x.len() && i == y.len() {
        assert(x@ =~= y@);
        core::cmp::Ordering::Equal
    } else if i == x.len() {
        assert(x@.len() != y@.len());
        assert(x@.skip(i as int).len() == 0);
        core::cmp::Ordering::Less
    } else if i == y.len() {
        assert(x@.len() != y@.len());
        assert(y@.skip(i as int).len() == 0);
        core::cmp::Ordering::Greater
    } else {
        assert(x@[i as int] != y@[i as int]);
        assert(x@.skip(i as int)[0] == x@[i as int]);
        assert(y@.skip(i as int)[0] == y@[i as int]);
        assert((x@[i as int] as u32) != (y@[i as int] as u32)) by {
            if (x@[i as int] as u32) == (y@[i as int] as u32) {
                lemma_code_point_injective(x@[i as int], y@[i as int]);
            }
        };
        if (x[i] as u32) < (y[i] as u32) {
            assert(lex_le(x@.skip(i as int), y@.skip(i as int)));
            core::cmp::Ordering::Less
        } else {
            assert(!lex_le(x@.skip(i as int), y@.skip(i as int)));
            core::cmp::Ordering::Greater
        }
    }
}

pub open spec fn words_sorted(v: Seq<&'static str>) -> bool {
    forall|i: int, j: int| 0 <= i < j < v.len() ==> lex_le(v[i]@, v[j]@)
}

/// Sorts `v` in place into lexicographic order.
pub fn sort_words(v: &mut Vec<&'static str>)
    ensures
        final(v)@.to_multiset() == old(v)@.to_multiset(),
        words_sorted(final(v)@),
{
    let n = v.len();
    let mut i: usize = 0;
    while i < n
        invariant
            n == v@.len(),
            i <= n,
            v@.to_multiset() == old(v)@.to_multiset(),
            forall|a: int, b: int| 0 <= a < b < i ==> lex_le(v@[a]@, v@[b]@),
        decreases n - i,
    {
        let mut j: usize = i;
        while j > 0 && !lex_le_exec(v[j - 1], v[j])
            invariant
                n == v@.len(),
                j <= i < n,
                v@.to_multiset() == old(v)@.to_multiset(),
                forall|a: int, b: int| 0 <= a < b <= i && b != j ==> lex_le(v@[a]@, v@[b]@),
                forall|a: int, b: int| 0 <= a < j && j < b <= i ==> lex_le(v@[a]@, v@[b]@),
            decreases j,
        {
            let x = v[j - 1];
            let y = v[j];
            let ghost w = v@.update(j - 1, y).update(j as int, x);
            proof {
                lemma_lex_total(x@, y@);
                assert forall|a: int, b: int| 0 <= a < b <= i && b != j - 1 implies lex_le(w[a]@, w[b]@) by {
                    if a == j - 1 && b > j {
                        lemma_lex_trans(y@, x@, v@[b]@);
                    }
                    if b == j && a < j - 1 {
                        assert(lex_le(v@[a]@, v@[j - 1]@));
                    }
                };
                assert forall|a: int, b: int| 0 <= a < j - 1 && j - 1 < b <= i implies lex_le(w[a]@, w[b]@) by {
                    if b == j {
                        assert(lex_le(v@[a]@, v@[j - 1]@));
                    } else {
                        assert(lex_le(v@[a]@, v@[b]@));
                    }
                };
            }
            let ghost before = v@;
            v.set(j - 1, y);
            v.set(j, x);
            proof {
                vstd::seq_lib::to_multiset_update(before, j - 1, y);
                vstd::seq_lib::to_multiset_update(before.update(j - 1, y), j as int, x);
                assert(v@ == before.update(j - 1, y).update(j as int, x));
                assert(before.to_multiset().count(x) > 0) by {
                    vstd::seq_lib::to_multiset_contains(before, x);
                    assert(before.contains(x));
                }
                assert(v@.to_multiset() =~= before.to_multiset());
            }
            j -= 1;
        }
        proof {
            if j > 0 {
                assert forall|a: int, b: int| 0 <= a < b <= i && b == j implies lex_le(
                    v@[a]@,
                    v@[b]@,
                ) by {
                    if a < j - 1 {
                        lemma_lex_trans(v@[a]@, v@[j - 1]@, v@[j as int]@);
                    }
                };
            }
        }
        i += 1;
    }
}

} // verus!
