//! Splitting, trimming and searching of character sequences.

use vstd::prelude::*;

verus! {

/// The characters that Unicode gives the property `White_Space`.
pub open spec fn is_space(c: char) -> bool {
    let u = c as u32;
    ||| 0x09 <= u <= 0x0D
    ||| u == 0x20
    ||| u == 0x85
    ||| u == 0xA0
    ||| u == 0x1680
    ||| 0x2000 <= u <= 0x200A
    ||| u == 0x2028
    ||| u == 0x2029
    ||| u == 0x202F
    ||| u == 0x205F
    ||| u == 0x3000
}

/// Whether `c` is white space.
pub fn space_char(c: char) -> (r: bool)
    ensures
        r == is_space(c),
{
    let u: u32 = c as u32;
    (0x09 <= u && u <= 0x0D) || u == 0x20 || u == 0x85 || u == 0xA0 || u == 0x1680 || (0x2000 <= u
        && u <= 0x200A) || u == 0x2028 || u == 0x2029 || u == 0x202F || u == 0x205F || u == 0x3000
}

/// The views of a list of character rows.
pub open spec fn rows(v: Seq<Vec<char>>) -> Seq<Seq<char>> {
    v.map_values(|r: Vec<char>| r@)
}

/// The maximal runs of characters of `s` that are no white space, in order.
///
/// Read from the left, one character at a time: white space closes the run in
/// progress, any other character extends it or, after white space or at the
/// start, opens a new one.
pub open spec fn fields(s: Seq<char>) -> Seq<Seq<char>>
    decreases s.len(),
{
    if s.len() == 0 {
        Seq::empty()
    } else {
        let init = fields(s.drop_last());
        let c = s.last();
        if is_space(c) {
            init
        } else if s.len() >= 2 && !is_space(s[s.len() - 2]) {
            init.drop_last().push(init.last().push(c))
        } else {
            init.push(seq![c])
        }
    }
}

/// The pieces of `s` between occurrences of `sep`, in order; one more piece
/// than there are separators, so the empty sequence has one empty piece.
pub open spec fn pieces(s: Seq<char>, sep: char) -> Seq<Seq<char>>
    decreases s.len(),
{
    if s.len() == 0 {
        seq![Seq::empty()]
    } else {
        let init = pieces(s.drop_last(), sep);
        if s.last() == sep {
            init.push(Seq::empty())
        } else {
            init.drop_last().push(init.last().push(s.last()))
        }
    }
}

/// `s` without its leading white space.
pub open spec fn trim_start(s: Seq<char>) -> Seq<char>
    decreases s.len(),
{
    if s.len() > 0 && is_space(s[0]) {
        trim_start(s.drop_first())
    } else {
        s
    }
}

/// `s` without its trailing white space.
pub open spec fn trim_end(s: Seq<char>) -> Seq<char>
    decreases s.len(),
{
    if s.len() > 0 && is_space(s.last()) {
        trim_end(s.drop_last())
    } else {
        s
    }
}

/// `s` without leading and trailing white space.
pub open spec fn trimmed(s: Seq<char>) -> Seq<char> {
    trim_end(trim_start(s))
}

/// Whether `needle` stands in `hay` at offset `i`.
pub open spec fn occurs_at(hay: Seq<char>, needle: Seq<char>, i: int) -> bool {
    &&& 0 <= i
    &&& i + needle.len() <= hay.len()
    &&& hay.subrange(i, i + needle.len()) == needle
}

/// Whether `needle` stands somewhere in `hay`.
pub open spec fn contains(hay: Seq<char>, needle: Seq<char>) -> bool {
    exists|i: int| occurs_at(hay, needle, i)
}

/// Whether `hay` begins with `needle`.
pub open spec fn starts_with(hay: Seq<char>, needle: Seq<char>) -> bool {
    occurs_at(hay, needle, 0)
}

/// Whether `hay` ends with `needle`.
pub open spec fn ends_with(hay: Seq<char>, needle: Seq<char>) -> bool {
    occurs_at(hay, needle, hay.len() - needle.len())
}

/// Splits at white space, dropping it.
pub fn split_fields(chars: &[char]) -> (out: Vec<Vec<char>>)
    ensures
        rows(out@) == fields(chars@),
{
    let n = chars.len();
    let mut out: Vec<Vec<char>> = Vec::new();
    let mut cur: Vec<char> = Vec::new();
    let mut i: usize = 0;
    proof {
        assert(rows(out@) =~= fields(chars@.subrange(0, 0)));
    }
    while i < n
        invariant
            i <= n,
            n == chars@.len(),
            (i > 0 && !is_space(chars@[i - 1])) ==> cur@.len() > 0 && fields(
                chars@.subrange(0, i as int),
            ) == rows(out@).push(cur@),
            !(i > 0 && !is_space(chars@[i - 1])) ==> cur@.len() == 0 && fields(
                chars@.subrange(0, i as int),
            ) == rows(out@),
        decreases n - i,
    {
        let c = chars[i];
        let ghost before = chars@.subrange(0, i as int);
        let ghost after = chars@.subrange(0, i + 1);
        let ghost closed = rows(out@);
        let ghost run = cur@;
        proof {
            assert(after.drop_last() =~= before);
            assert(after.last() == c);
            if i > 0 {
                assert(after[after.len() - 2] == chars@[i - 1]);
            }
        }
        if space_char(c) {
            if cur.len() > 0 {
                out.push(cur);
                cur = Vec::new();
                proof {
                    assert(rows(out@) =~= closed.push(run));
                }
            }
        } else {
            cur.push(c);
            proof {
                if i > 0 && !is_space(chars@[i - 1]) {
                    assert(closed.push(run).drop_last() =~= closed);
                    assert(closed.push(run).last() == run);
                } else {
                    assert(cur@ =~= seq![c]);
                }
            }
        }
        i += 1;
    }
    proof {
        assert(chars@.subrange(0, n as int) =~= chars@);
    }
    if cur.len() > 0 {
        let ghost closed = rows(out@);
        let ghost run = cur@;
        out.push(cur);
        proof {
            assert(rows(out@) =~= closed.push(run));
        }
    }
    out
}

/// Splits at each occurrence of `sep`.
pub fn split_on(chars: &[char], sep: char) -> (out: Vec<Vec<char>>)
    ensures
        rows(out@) == pieces(chars@, sep),
{
    let n = chars.len();
    let mut out: Vec<Vec<char>> = Vec::new();
    let mut cur: Vec<char> = Vec::new();
    let mut i: usize = 0;
    proof {
        assert(rows(out@).push(cur@) =~= pieces(chars@.subrange(0, 0), sep));
    }
    while i < n
        invariant
            i <= n,
            n == chars@.len(),
            pieces(chars@.subrange(0, i as int), sep) == rows(out@).push(cur@),
        decreases n - i,
    {
        let c = chars[i];
        let ghost before = chars@.subrange(0, i as int);
        let ghost after = chars@.subrange(0, i + 1);
        let ghost closed = rows(out@);
        let ghost run = cur@;
        proof {
            assert(after.drop_last() =~= before);
            assert(after.last() == c);
            assert(closed.push(run).drop_last() =~= closed);
        }
        if c == sep {
            out.push(cur);
            cur = Vec::new();
            proof {
                assert(rows(out@) =~= closed.push(run));
                assert(cur@ =~= Seq::<char>::empty());
            }
        } else {
            cur.push(c);
        }
        i += 1;
    }
    proof {
        assert(chars@.subrange(0, n as int) =~= chars@);
    }
    let ghost closed = rows(out@);
    let ghost run = cur@;
    out.push(cur);
    proof {
        assert(rows(out@) =~= closed.push(run));
    }
    out
}

/// Copies `chars[from..to]`.
pub fn copy_range(chars: &[char], from: usize, to: usize) -> (out: Vec<char>)
    requires
        from <= to <= chars@.len(),
    ensures
        out@ == chars@.subrange(from as int, to as int),
{
    let mut out: Vec<char> = Vec::new();
    let mut i: usize = from;
    while i < to
        invariant
            from <= i <= to <= chars@.len(),
            out@ == chars@.subrange(from as int, i as int),
        decreases to - i,
    {
        out.push(chars[i]);
        proof {
            assert(out@ =~= chars@.subrange(from as int, i + 1));
        }
        i += 1;
    }
    out
}

/// Strips leading and trailing white space.
pub fn trim(chars: &[char]) -> (out: Vec<char>)
    ensures
        out@ == trimmed(chars@),
{
    let n = chars.len();
    let mut a: usize = 0;
    proof {
        assert(chars@.subrange(0, n as int) =~= chars@);
    }
    while a < n && space_char(chars[a])
        invariant
            a <= n,
            n == chars@.len(),
            trim_start(chars@) == trim_start(chars@.subrange(a as int, n as int)),
        decreases n - a,
    {
        proof {
            assert(chars@.subrange(a as int, n as int).drop_first() =~= chars@.subrange(
                a + 1,
                n as int,
            ));
        }
        a += 1;
    }
    let ghost rest = chars@.subrange(a as int, n as int);
    assert(trim_start(chars@) == rest);
    let mut b: usize = n;
    proof {
        assert(rest.subrange(0, b - a) =~= rest);
    }
    while b > a && space_char(chars[b - 1])
        invariant
            a <= b <= n,
            n == chars@.len(),
            rest == chars@.subrange(a as int, n as int),
            trim_end(rest) == trim_end(rest.subrange(0, b - a)),
        decreases b,
    {
        proof {
            assert(rest.subrange(0, b - a).drop_last() =~= rest.subrange(0, b - 1 - a));
        }
        b -= 1;
    }
    proof {
        assert(rest.subrange(0, b - a) =~= chars@.subrange(a as int, b as int));
    }
    copy_range(chars, a, b)
}

/// Whether `needle` stands in `hay` at offset `i`.
pub fn matches_at(hay: &[char], needle: &[char], i: usize) -> (r: bool)
    ensures
        r == occurs_at(hay@, needle@, i as int),
{
    let n = hay.len();
    let m = needle.len();
    if i > n || m > n - i {
        return false;
    }
    let mut k: usize = 0;
    while k < m
        invariant
            k <= m,
            m == needle@.len(),
            n == hay@.len(),
            i + m <= n,
            forall|j: int| 0 <= j < k ==> hay@[i + j] == needle@[j],
        decreases m - k,
    {
        if hay[i + k] != needle[k] {
            proof {
                assert(hay@.subrange(i as int, i + m)[k as int] == hay@[i + k]);
            }
            return false;
        }
        k += 1;
    }
    proof {
        assert(hay@.subrange(i as int, i + m) =~= needle@);
    }
    true
}

/// Whether `needle` stands somewhere in `hay`.
pub fn find_in(hay: &[char], needle: &[char]) -> (r: bool)
    ensures
        r == contains(hay@, needle@),
{
    let n = hay.len();
    let m = needle.len();
    if m > n {
        return false;
    }
    let mut i: usize = 0;
    loop
        invariant
            m <= n,
            n == hay@.len(),
            m == needle@.len(),
            i <= n - m,
            forall|j: int| 0 <= j < i ==> !occurs_at(hay@, needle@, j),
        decreases n - m - i,
    {
        if matches_at(hay, needle, i) {
            return true;
        }
        if i == n - m {
            return false;
        }
        i += 1;
    }
}

/// Whether `hay` begins with `needle`.
pub fn has_prefix(hay: &[char], needle: &[char]) -> (r: bool)
    ensures
        r == starts_with(hay@, needle@),
{
    matches_at(hay, needle, 0)
}

/// Whether `hay` ends with `needle`.
pub fn has_suffix(hay: &[char], needle: &[char]) -> (r: bool)
    ensures
        r == ends_with(hay@, needle@),
{
    if needle.len() > hay.len() {
        return false;
    }
    matches_at(hay, needle, hay.len() - needle.len())
}


/// The code of `c` with the letters `A` to `Z` taken to `a` to `z`.
pub open spec fn lower_code(c: char) -> u32 {
    let u = c as u32;
    if 65 <= u <= 90 {
        (u + 32) as u32
    } else {
        u
    }
}

/// Whether `a` and `b` are the same but for the case of the letters `A` to
/// `Z`.
pub open spec fn same_ignoring_case(a: Seq<char>, b: Seq<char>) -> bool {
    a.len() == b.len() && forall|i: int| 0 <= i < a.len() ==> lower_code(a[i]) == lower_code(b[i])
}

fn lower_of(c: char) -> (u: u32)
    ensures
        u == lower_code(c),
{
    let u: u32 = c as u32;
    if 65 <= u && u <= 90 {
        u + 32
    } else {
        u
    }
}

/// Whether `a` and `b` are the same but for the case of ASCII letters.
pub fn equal_ignoring_case(a: &[char], b: &[char]) -> (r: bool)
    ensures
        r == same_ignoring_case(a@, b@),
{
    if a.len() != b.len() {
        return false;
    }
    let mut i: usize = 0;
    while i < a.len()
        invariant
            i <= a.len(),
            a@.len() == b@.len(),
            forall|k: int| 0 <= k < i ==> lower_code(a@[k]) == lower_code(b@[k]),
        decreases a.len() - i,
    {
        if lower_of(a[i]) != lower_of(b[i]) {
            return false;
        }
        i += 1;
    }
    true
}


/// A sequence without the separator is one piece.
pub proof fn lemma_one_piece(t: Seq<char>, sep: char)
    requires
        forall|i: int| 0 <= i < t.len() ==> t[i] != sep,
    ensures
        pieces(t, sep) == seq![t],
    decreases t.len(),
{
    if t.len() > 0 {
        lemma_one_piece(t.drop_last(), sep);
        assert(t.drop_last().push(t.last()) =~= t);
        assert(seq![t.drop_last()].drop_last() =~= Seq::<Seq<char>>::empty());
        assert(seq![t.drop_last()].last() == t.drop_last());
        assert(Seq::<Seq<char>>::empty().push(t) =~= seq![t]);
    } else {
        assert(t =~= Seq::<char>::empty());
    }
}

/// After a separator, a sequence without the separator is one more piece.
pub proof fn lemma_one_more_piece(s: Seq<char>, t: Seq<char>, sep: char)
    requires
        forall|i: int| 0 <= i < t.len() ==> t[i] != sep,
    ensures
        pieces(s.push(sep) + t, sep) == pieces(s, sep).push(t),
    decreases t.len(),
{
    let whole = s.push(sep) + t;
    if t.len() == 0 {
        assert(whole =~= s.push(sep));
        assert(whole.drop_last() =~= s);
        assert(t =~= Seq::<char>::empty());
    } else {
        let shorter = t.drop_last();
        lemma_one_more_piece(s, shorter, sep);
        assert(whole.drop_last() =~= s.push(sep) + shorter);
        assert(whole.last() == t.last());
        assert(pieces(s, sep).push(shorter).drop_last() =~= pieces(s, sep));
        assert(shorter.push(t.last()) =~= t);
    }
}

} // verus!
