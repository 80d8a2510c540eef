//! Character-level utilities shared by the metric and the parsers: extracting
//! the code points of a string and locating verbatim substring occurrences.
//!
//! Substring positions are measured in code points, not bytes, so the results
//! do not depend on how the text happens to be encoded.

use vstd::prelude::*;

verus! {

/// The code points of `s`, collected into a vector.
pub fn chars_of(s: &str) -> (r: Vec<char>)
    ensures
        r@ == s@,
{
    let n = s.unicode_len();
    let mut r: Vec<char> = Vec::new();
    let mut i: usize = 0;
    while i < n
        invariant
            n == s@.len(),
            i <= n,
            r@ == s@.subrange(0, i as int),
        decreases n - i,
    {
        let c = s.get_char(i);
        r.push(c);
        i = i + 1;
        assert(r@ =~= s@.subrange(0, i as int));
    }
    assert(r@ =~= s@);
    r
}

/// Relies on `String::push`: appending one character to the end of a string.
#[verifier::external_body]
pub fn push_char(s: &mut String, c: char)
    ensures
        final(s)@ == old(s)@.push(c),
{
    s.push(c);
}

/// The characters of `v`, collected into a string.
pub fn string_of(v: &Vec<char>) -> (s: String)
    ensures
        s@ == v@,
{
    let mut s = String::new();
    let mut i: usize = 0;
    while i < v.len()
        invariant
            i <= v@.len(),
            s@ == v@.subrange(0, i as int),
        decreases v@.len() - i,
    {
        push_char(&mut s, v[i]);
        i = i + 1;
        assert(s@ =~= v@.subrange(0, i as int));
    }
    assert(s@ =~= v@);
    s
}

/// The characters of `v` from position `from` (inclusive) to `to`
/// (exclusive), as a fresh vector.
pub fn sub_chars(v: &Vec<char>, from: usize, to: usize) -> (r: Vec<char>)
    requires
        from <= to <= v@.len(),
    ensures
        r@ == v@.subrange(from as int, to as int),
{
    let mut r: Vec<char> = Vec::new();
    let mut i: usize = from;
    while i < to
        invariant
            from <= i <= to <= v@.len(),
            r@ == v@.subrange(from as int, i as int),
        decreases to - i,
    {
        r.push(v[i]);
        i = i + 1;
        assert(r@ =~= v@.subrange(from as int, i as int));
    }
    r
}

/// Whether the characters of `v` spell exactly the string `s`.
pub fn chars_equal_str(v: &Vec<char>, s: &str) -> (b: bool)
    ensures
        b == (v@ == s@),
{
    let n = s.unicode_len();
    if v.len() != n {
        return false;
    }
    let mut i: usize = 0;
    while i < n
        invariant
            n == s@.len(),
            n == v@.len(),
            i <= n,
            forall|k: int| 0 <= k < i ==> v@[k] == s@[k],
        decreases n - i,
    {
        if v[i] != s.get_char(i) {
            return false;
        }
        i = i + 1;
    }
    assert(v@ =~= s@);
    true
}

/// Whether two strings spell the same characters.
pub fn str_equal(a: &str, b: &str) -> (r: bool)
    ensures
        r == (a@ == b@),
{
    let n = a.unicode_len();
    if b.unicode_len() != n {
        return false;
    }
    let mut i: usize = 0;
    while i < n
        invariant
            n == a@.len(),
            n == b@.len(),
            i <= n,
            forall|k: int| 0 <= k < i ==> a@[k] == b@[k],
        decreases n - i,
    {
        if a.get_char(i) != b.get_char(i) {
            return false;
        }
        i = i + 1;
    }
    assert(a@ =~= b@);
    true
}

/// The code points with the Unicode white-space property: what `str::trim`
/// strips from either end.
pub open spec fn is_unicode_space(c: char) -> bool {
    let v = c as u32;
    (0x09 <= v && v <= 0x0d) || v == 0x20 || v == 0x85 || v == 0xa0 || v == 0x1680 || (0x2000 <= v
        && v <= 0x200a) || v == 0x2028 || v == 0x2029 || v == 0x202f || v == 0x205f || v == 0x3000
}

/// Whether `c` carries the Unicode white-space property.
pub fn is_space_char(c: char) -> (b: bool)
    ensures
        b == is_unicode_space(c),
{
    let v = c as u32;
    (0x09 <= v && v <= 0x0d) || v == 0x20 || v == 0x85 || v == 0xa0 || v == 0x1680 || (0x2000 <= v
        && v <= 0x200a) || v == 0x2028 || v == 0x2029 || v == 0x202f || v == 0x205f || v == 0x3000
}

/// `s` without its trailing white space.
pub open spec fn trim_end_spec(s: Seq<char>) -> Seq<char>
    decreases s.len(),
{
    if s.len() > 0 && is_unicode_space(s.last()) {
        trim_end_spec(s.drop_last())
    } else {
        s
    }
}

/// `s` without its leading white space.
pub open spec fn trim_start_spec(s: Seq<char>) -> Seq<char>
    decreases s.len(),
{
    if s.len() > 0 && is_unicode_space(s.first()) {
        trim_start_spec(s.drop_first())
    } else {
        s
    }
}

/// `s` without leading and trailing white space, as `str::trim` leaves it.
pub open spec fn trimmed(s: Seq<char>) -> Seq<char> {
    trim_start_spec(trim_end_spec(s))
}

/// A copy of `v` with leading and trailing white space removed.
pub fn trim_chars(v: &Vec<char>) -> (r: Vec<char>)
    ensures
        r@ == trimmed(v@),
{
    let mut end = v.len();
    assert(v@.subrange(0, end as int) =~= v@);
    while end > 0 && is_space_char(v[end - 1])
        invariant
            end <= v@.len(),
            trim_end_spec(v@) == trim_end_spec(v@.subrange(0, end as int)),
        decreases end,
    {
        assert(v@.subrange(0, end as int).drop_last() =~= v@.subrange(0, end - 1));
        end = end - 1;
    }
    assert(trim_end_spec(v@) =~= v@.subrange(0, end as int));
    let mut start: usize = 0;
    while start < end && is_space_char(v[start])
        invariant
            start <= end <= v@.len(),
            trim_end_spec(v@) == v@.subrange(0, end as int),
            trimmed(v@) == trim_start_spec(v@.subrange(start as int, end as int)),
        decreases end - start,
    {
        assert(v@.subrange(start as int, end as int).drop_first() =~= v@.subrange(
            start + 1,
            end as int,
        ));
        start = start + 1;
    }
    assert(trimmed(v@) =~= v@.subrange(start as int, end as int));
    let mut r: Vec<char> = Vec::new();
    let mut i: usize = start;
    while i < end
        invariant
            start <= i <= end <= v@.len(),
            r@ == v@.subrange(start as int, i as int),
        decreases end - i,
    {
        r.push(v[i]);
        i = i + 1;
        assert(r@ =~= v@.subrange(start as int, i as int));
    }
    assert(r@ =~= v@.subrange(start as int, end as int));
    r
}

/// `s` divided at every occurrence of `sep`, keeping empty pieces, as
/// `str::split` yields them. The result always holds at least one piece.
pub open spec fn split_at_char(s: Seq<char>, sep: char) -> Seq<Seq<char>>
    decreases s.len(),
{
    if s.len() == 0 {
        seq![Seq::<char>::empty()]
    } else if s.last() == sep {
        split_at_char(s.drop_last(), sep).push(Seq::<char>::empty())
    } else {
        let r = split_at_char(s.drop_last(), sep);
        r.update(r.len() - 1, r.last().push(s.last()))
    }
}

/// Splitting yields at least one piece.
pub proof fn lemma_split_at_char_nonempty(s: Seq<char>, sep: char)
    ensures
        split_at_char(s, sep).len() >= 1,
    decreases s.len(),
{
    if s.len() > 0 {
        lemma_split_at_char_nonempty(s.drop_last(), sep);
    }
}

/// The pieces of `v` between occurrences of `sep`, in order, empty pieces
/// included.
pub fn split_chars(v: &Vec<char>, sep: char) -> (r: Vec<Vec<char>>)
    ensures
        r@.map_values(|p: Vec<char>| p@) == split_at_char(v@, sep),
        r@.len() >= 1,
{
    let mut done: Vec<Vec<char>> = Vec::new();
    let mut cur: Vec<char> = Vec::new();
    let mut i: usize = 0;
    proof {
        lemma_split_at_char_nonempty(v@, sep);
    }
    while i < v.len()
        invariant
            i <= v@.len(),
            done@.map_values(|p: Vec<char>| p@).push(cur@) == split_at_char(
                v@.subrange(0, i as int),
                sep,
            ),
        decreases v@.len() - i,
    {
        let ghost prefix = v@.subrange(0, i as int);
        assert(v@.subrange(0, i + 1).drop_last() =~= prefix);
        let c = v[i];
        if c == sep {
            done.push(cur);
            cur = Vec::new();
            assert(done@.map_values(|p: Vec<char>| p@).push(cur@) =~= split_at_char(
                v@.subrange(0, i + 1),
                sep,
            ));
        } else {
            let ghost old_pieces = done@.map_values(|p: Vec<char>| p@).push(cur@);
            cur.push(c);
            proof {
                let pieces = split_at_char(v@.subrange(0, i + 1), sep);
                assert(pieces == old_pieces.update(old_pieces.len() - 1, old_pieces.last().push(c)));
                assert(done@.map_values(|p: Vec<char>| p@).push(cur@) =~= pieces);
            }
        }
        i = i + 1;
    }
    assert(v@.subrange(0, v@.len() as int) =~= v@);
    done.push(cur);
    proof {
        assert(done@.map_values(|p: Vec<char>| p@) =~= split_at_char(v@, sep));
    }
    done
}

/// `s` divided into its maximal runs of non-white-space characters, as
/// `str::split_ascii_whitespace` yields them (the splitting characters here
/// being the ASCII white-space ones).
pub open spec fn ascii_tokens(s: Seq<char>) -> Seq<Seq<char>>
    decreases s.len(),
{
    if s.len() == 0 {
        Seq::<Seq<char>>::empty()
    } else if crate::costs::is_ascii_space(s.last()) {
        ascii_tokens(s.drop_last())
    } else {
        let r = ascii_tokens(s.drop_last());
        if s.len() >= 2 && !crate::costs::is_ascii_space(s[s.len() - 2]) {
            r.update(r.len() - 1, r.last().push(s.last()))
        } else {
            r.push(seq![s.last()])
        }
    }
}

/// The maximal runs of non-white-space characters of `v`, in order.
pub fn split_ascii_tokens(v: &Vec<char>) -> (r: Vec<Vec<char>>)
    ensures
        r@.map_values(|p: Vec<char>| p@) == ascii_tokens(v@),
{
    let mut done: Vec<Vec<char>> = Vec::new();
    let mut cur: Vec<char> = Vec::new();
    let mut i: usize = 0;
    while i < v.len()
        invariant
            i <= v@.len(),
            cur@.len() == 0 ==> done@.map_values(|p: Vec<char>| p@) == ascii_tokens(
                v@.subrange(0, i as int),
            ),
            cur@.len() == 0 ==> (i == 0 || crate::costs::is_ascii_space(v@[i - 1])),
            cur@.len() > 0 ==> done@.map_values(|p: Vec<char>| p@).push(cur@) == ascii_tokens(
                v@.subrange(0, i as int),
            ),
            cur@.len() > 0 ==> (i > 0 && !crate::costs::is_ascii_space(v@[i - 1])),
        decreases v@.len() - i,
    {
        let ghost prefix = v@.subrange(0, i as int);
        assert(v@.subrange(0, i + 1).drop_last() =~= prefix);
        let c = v[i];
        let c_space = c == ' ' || c == '\t' || c == '\n' || c == '\x0c' || c == '\r';
        assert(c_space == crate::costs::is_ascii_space(c));
        if c_space {
            if cur.len() > 0 {
                done.push(cur);
                cur = Vec::new();
            }
            assert(done@.map_values(|p: Vec<char>| p@) =~= ascii_tokens(v@.subrange(0, i + 1)));
        } else {
            if cur.len() > 0 {
                let ghost old_pieces = done@.map_values(|p: Vec<char>| p@).push(cur@);
                cur.push(c);
                proof {
                    let pieces = ascii_tokens(v@.subrange(0, i + 1));
                    assert(v@.subrange(0, i + 1).len() >= 2);
                    assert(v@.subrange(0, i + 1)[i - 1] == v@[i - 1]);
                    assert(pieces == old_pieces.update(
                        old_pieces.len() - 1,
                        old_pieces.last().push(c),
                    ));
                    assert(done@.map_values(|p: Vec<char>| p@).push(cur@) =~= pieces);
                }
            } else {
                cur.push(c);
                proof {
                    let pieces = ascii_tokens(v@.subrange(0, i + 1));
                    assert(pieces == ascii_tokens(prefix).push(seq![c]));
                    assert(cur@ =~= seq![c]);
                    assert(done@.map_values(|p: Vec<char>| p@).push(cur@) =~= pieces);
                }
            }
        }
        i = i + 1;
    }
    assert(v@.subrange(0, v@.len() as int) =~= v@);
    if cur.len() > 0 {
        done.push(cur);
        assert(done@.map_values(|p: Vec<char>| p@) =~= ascii_tokens(v@));
    }
    done
}

/// `q` occurs verbatim in `t` starting at code-point position `p`.
pub open spec fn occurs_at(q: Seq<char>, t: Seq<char>, p: int) -> bool {
    0 <= p && p + q.len() <= t.len() && t.subrange(p, p + q.len()) == q
}

/// `q` occurs verbatim somewhere in `t`.
pub open spec fn occurs_in(q: Seq<char>, t: Seq<char>) -> bool {
    exists|p: int| occurs_at(q, t, p)
}

/// The position of the first verbatim occurrence of `q` in `t`; meaningful
/// only when [`occurs_in`] holds.
pub open spec fn first_occurrence(q: Seq<char>, t: Seq<char>) -> int {
    choose|p: int|
        occurs_at(q, t, p) && (forall|r: int| 0 <= r < p ==> !occurs_at(q, t, r))
}

/// Below any occurrence there is a first one.
pub proof fn lemma_first_occurrence_exists(q: Seq<char>, t: Seq<char>, p0: int)
    requires
        occurs_at(q, t, p0),
    ensures
        occurs_at(q, t, first_occurrence(q, t)),
        forall|r: int| 0 <= r < first_occurrence(q, t) ==> !occurs_at(q, t, r),
        first_occurrence(q, t) <= p0,
    decreases p0,
{
    if exists|r: int| 0 <= r < p0 && occurs_at(q, t, r) {
        let r0 = choose|r: int| 0 <= r < p0 && occurs_at(q, t, r);
        lemma_first_occurrence_exists(q, t, r0);
    } else {
        assert(occurs_at(q, t, p0) && (forall|r: int| 0 <= r < p0 ==> !occurs_at(q, t, r)));
        let w = first_occurrence(q, t);
        assert(occurs_at(q, t, w) && (forall|r: int| 0 <= r < w ==> !occurs_at(q, t, r)));
        if w > p0 {
            assert(!occurs_at(q, t, p0));
        }
    }
}

/// `q` occurs in `t` exactly at position `p`, checked character by character.
fn matches_at(q: &Vec<char>, t: &Vec<char>, p: usize) -> (b: bool)
    requires
        p + q@.len() <= t@.len(),
    ensures
        b == occurs_at(q@, t@, p as int),
{
    let tn = t.len();
    let mut j: usize = 0;
    while j < q.len()
        invariant
            tn == t@.len(),
            p + q@.len() <= t@.len(),
            j <= q@.len(),
            forall|k: int| 0 <= k < j ==> t@[p + k] == q@[k],
        decreases q@.len() - j,
    {
        if t[p + j] != q[j] {
            assert(t@.subrange(p as int, p + q@.len())[j as int] != q@[j as int]);
            return false;
        }
        j = j + 1;
    }
    assert(t@.subrange(p as int, p + q@.len()) =~= q@);
    true
}

/// The first code-point position at which `q` occurs verbatim in `t`, if any.
pub fn find_first_occurrence(q: &Vec<char>, t: &Vec<char>) -> (r: Option<usize>)
    ensures
        match r {
            Some(p) => occurs_at(q@, t@, p as int) && (forall|r2: int|
                0 <= r2 < p ==> !occurs_at(q@, t@, r2)) && p == first_occurrence(q@, t@),
            None => !occurs_in(q@, t@),
        },
{
    if q.len() > t.len() {
        return None;
    }
    if q.len() == 0 {
        assert(t@.subrange(0, 0) =~= q@);
        proof {
            lemma_first_occurrence_exists(q@, t@, 0);
        }
        return Some(0);
    }
    let tn = t.len();
    let last = tn - q.len();
    let mut p: usize = 0;
    while p <= last
        invariant
            tn == t@.len(),
            1 <= q@.len() <= t@.len(),
            last == t@.len() - q@.len(),
            p <= last + 1,
            forall|r2: int| 0 <= r2 < p ==> !occurs_at(q@, t@, r2),
        decreases last + 1 - p,
    {
        if matches_at(q, t, p) {
            proof {
                lemma_first_occurrence_exists(q@, t@, p as int);
                let w = first_occurrence(q@, t@);
                assert(!(w < p) && !(w > p));
            }
            return Some(p);
        }
        p = p + 1;
    }
    assert(forall|r2: int| occurs_at(q@, t@, r2) ==> 0 <= r2 <= last);
    None
}

} // verus!
