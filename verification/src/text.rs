//! Character-level helpers on strings, each stated over `Seq<char>`.
use vstd::prelude::*;
use vstd::string::*;

verus! {

/// Unicode `White_Space` code points: exactly the characters for which
/// `char::is_whitespace` holds, and those that `str::trim` removes.
pub open spec fn is_white_space(c: char) -> bool {
    let u = c as u32;
    ||| 0x09 <= u <= 0x0D
    ||| u == 0x20
    ||| u == 0x85
    ||| u == 0xA0
    ||| u == 0x1680
    ||| 0x2000 <= u <= 0x200A
    ||| u == 0x2028
    ||| u == 0x2029
    ||| u == 0x202F
    ||| u == 0x205F
    ||| u == 0x3000
}

/// `s` without its leading white space.
pub open spec fn trim_start(s: Seq<char>) -> Seq<char>
    decreases s.len(),
{
    if s.len() > 0 && is_white_space(s[0]) {
        trim_start(s.drop_first())
    } else {
        s
    }
}

/// `s` without its trailing white space.
pub open spec fn trim_end(s: Seq<char>) -> Seq<char>
    decreases s.len(),
{
    if s.len() > 0 && is_white_space(s.last()) {
        trim_end(s.drop_last())
    } else {
        s
    }
}

/// What `str::trim` gives back: `s` without leading and trailing white space.
pub open spec fn trim(s: Seq<char>) -> Seq<char> {
    trim_end(trim_start(s))
}

/// The pieces of `s` between occurrences of `sep`, scanning from position
/// `i`, where the piece being read began at `start`.
pub open spec fn split_from(s: Seq<char>, sep: char, start: int, i: int) -> Seq<Seq<char>>
    decreases s.len() - i,
{
    if i >= s.len() {
        seq![s.subrange(start, s.len() as int)]
    } else if s[i] == sep {
        seq![s.subrange(start, i)] + split_from(s, sep, i + 1, i + 1)
    } else {
        split_from(s, sep, start, i + 1)
    }
}

/// What `str::split` with a character gives back: the pieces of `s` between
/// occurrences of `sep`; there is always at least one, possibly empty.
pub open spec fn split(s: Seq<char>, sep: char) -> Seq<Seq<char>> {
    split_from(s, sep, 0, 0)
}

/// `s` begins with `prefix`.
pub open spec fn starts_with(s: Seq<char>, prefix: Seq<char>) -> bool {
    prefix.len() <= s.len() && s.subrange(0, prefix.len() as int) == prefix
}

/// `needle` occurs in `s` as a contiguous piece.
pub open spec fn contains_piece(s: Seq<char>, needle: Seq<char>) -> bool {
    exists|i: int| 0 <= i <= s.len() - needle.len() && #[trigger] s.subrange(i, i + needle.len()) == needle
}

/// `trim_start(s)` is a suffix of `s`, and begins with no white space.
proof fn lemma_trim_start_shape(s: Seq<char>)
    ensures
        trim_start(s).len() <= s.len(),
        trim_start(s) == s.subrange(s.len() - trim_start(s).len(), s.len() as int),
        trim_start(s).len() > 0 ==> !is_white_space(trim_start(s)[0]),
    decreases s.len(),
{
    if s.len() > 0 && is_white_space(s[0]) {
        let d = s.drop_first();
        lemma_trim_start_shape(d);
        let t = trim_start(d);
        assert(d.subrange(d.len() - t.len(), d.len() as int) =~= s.subrange(
            s.len() - t.len(),
            s.len() as int,
        ));
    } else {
        assert(s.subrange(0, s.len() as int) =~= s);
    }
}

/// `trim_end(s)` is a prefix of `s`, and ends with no white space.
proof fn lemma_trim_end_shape(s: Seq<char>)
    ensures
        trim_end(s).len() <= s.len(),
        trim_end(s) == s.subrange(0, trim_end(s).len() as int),
        trim_end(s).len() > 0 ==> !is_white_space(trim_end(s).last()),
    decreases s.len(),
{
    if s.len() > 0 && is_white_space(s.last()) {
        let d = s.drop_last();
        lemma_trim_end_shape(d);
        let t = trim_end(d);
        assert(d.subrange(0, t.len() as int) =~= s.subrange(0, t.len() as int));
    } else {
        assert(s.subrange(0, s.len() as int) =~= s);
    }
}

/// Where `trim(s)` begins within `s`.
pub open spec fn trim_offset(s: Seq<char>) -> int {
    s.len() - trim_start(s).len()
}

/// `trim(s)` is a contiguous piece of `s` that neither begins nor ends with
/// white space.
pub proof fn lemma_trim_shape(s: Seq<char>)
    ensures
        0 <= trim_offset(s),
        trim_offset(s) + trim(s).len() <= s.len(),
        trim(s) == s.subrange(trim_offset(s), trim_offset(s) + trim(s).len()),
        trim(s).len() > 0 ==> !is_white_space(trim(s)[0]) && !is_white_space(trim(s).last()),
        trim(trim(s)) == trim(s),
{
    lemma_trim_start_shape(s);
    let ts = trim_start(s);
    lemma_trim_end_shape(ts);
    let t = trim(s);
    let k = s.len() - ts.len();
    assert(t =~= s.subrange(k, k + t.len()));
    if t.len() > 0 {
        assert(t[0] == ts[0]);
    }
    lemma_trim_fixed(t);
}

/// Trimming a piece that neither begins nor ends with white space leaves it.
proof fn lemma_trim_fixed(t: Seq<char>)
    requires
        t.len() > 0 ==> !is_white_space(t[0]) && !is_white_space(t.last()),
    ensures
        trim(t) == t,
{
}

/// No piece of a split holds the separator.
pub proof fn lemma_split_pieces(s: Seq<char>, sep: char, start: int, i: int)
    requires
        0 <= start <= i <= s.len(),
        forall|j: int| start <= j < i ==> s[j] != sep,
    ensures
        forall|k: int|
            0 <= k < split_from(s, sep, start, i).len() ==> !(
            #[trigger] split_from(s, sep, start, i)[k]).contains(sep),
    decreases s.len() - i,
{
    if i >= s.len() {
        let p = s.subrange(start, s.len() as int);
        assert forall|j: int| 0 <= j < p.len() implies p[j] != sep by {
            assert(p[j] == s[start + j]);
        }
        assert(split_from(s, sep, start, i) =~= seq![p]);
    } else if s[i] == sep {
        let p = s.subrange(start, i);
        assert forall|j: int| 0 <= j < p.len() implies p[j] != sep by {
            assert(p[j] == s[start + j]);
        }
        lemma_split_pieces(s, sep, i + 1, i + 1);
        let rest = split_from(s, sep, i + 1, i + 1);
        assert forall|k: int|
            0 <= k < split_from(s, sep, start, i).len() implies !(
            #[trigger] split_from(s, sep, start, i)[k]).contains(sep) by {
            assert(split_from(s, sep, start, i) == seq![p] + rest);
            if k > 0 {
                assert(split_from(s, sep, start, i)[k] == rest[k - 1]);
            } else {
                assert(split_from(s, sep, start, i)[k] == p);
            }
        }
    } else {
        lemma_split_pieces(s, sep, start, i + 1);
        assert(split_from(s, sep, start, i) == split_from(s, sep, start, i + 1));
    }
}

/// The pieces put back together, with `sep` between each two.
pub open spec fn joined(pieces: Seq<Seq<char>>, sep: char) -> Seq<char>
    decreases pieces.len(),
{
    if pieces.len() == 0 {
        seq![]
    } else if pieces.len() == 1 {
        pieces[0]
    } else {
        pieces[0] + seq![sep] + joined(pieces.drop_first(), sep)
    }
}

proof fn lemma_split_join(s: Seq<char>, sep: char, start: int, i: int)
    requires
        0 <= start <= i <= s.len(),
    ensures
        split_from(s, sep, start, i).len() >= 1,
        joined(split_from(s, sep, start, i), sep) == s.subrange(start, s.len() as int),
    decreases s.len() - i,
{
    if i >= s.len() {
        assert(split_from(s, sep, start, i) =~= seq![s.subrange(start, s.len() as int)]);
    } else if s[i] == sep {
        lemma_split_join(s, sep, i + 1, i + 1);
        let p = s.subrange(start, i);
        let rest = split_from(s, sep, i + 1, i + 1);
        let all = seq![p] + rest;
        assert(split_from(s, sep, start, i) == all);
        assert(all.drop_first() =~= rest);
        assert(all[0] == p);
        assert(joined(all, sep) == p + seq![sep] + joined(rest, sep));
        assert(p + seq![sep] + s.subrange(i + 1, s.len() as int) =~= s.subrange(
            start,
            s.len() as int,
        ));
    } else {
        lemma_split_join(s, sep, start, i + 1);
        assert(split_from(s, sep, start, i) == split_from(s, sep, start, i + 1));
    }
}

/// Splitting cuts nothing off: the pieces, joined back with the separator,
/// give the whole string again, and no piece holds the separator; so every
/// stretch between two separators is one piece, whole, whatever its length.
pub proof fn law_split_whole(s: Seq<char>, sep: char)
    ensures
        split(s, sep).len() >= 1,
        joined(split(s, sep), sep) == s,
        forall|k: int| 0 <= k < split(s, sep).len() ==> !(#[trigger] split(s, sep)[k]).contains(sep),
{
    lemma_split_join(s, sep, 0, 0);
    lemma_split_pieces(s, sep, 0, 0);
    assert(s.subrange(0, s.len() as int) =~= s);
}

/// A string without the separator splits into itself alone.
pub proof fn lemma_split_single(s: Seq<char>, sep: char, start: int, i: int)
    requires
        0 <= start <= i <= s.len(),
        !s.contains(sep),
    ensures
        split_from(s, sep, start, i) == seq![s.subrange(start, s.len() as int)],
    decreases s.len() - i,
{
    if i < s.len() {
        assert(s[i] != sep);
        lemma_split_single(s, sep, start, i + 1);
    }
}

/// Decides `is_white_space` for one character.
pub fn char_is_white_space(c: char) -> (r: bool)
    ensures
        r == is_white_space(c),
{
    let u: u32 = c as u32;
    (0x09 <= u && u <= 0x0D) || u == 0x20 || u == 0x85 || u == 0xA0 || u == 0x1680 || (0x2000 <= u
        && u <= 0x200A) || u == 0x2028 || u == 0x2029 || u == 0x202F || u == 0x205F || u == 0x3000
}

proof fn lemma_trim_start_step(s: Seq<char>, a: int)
    requires
        0 <= a < s.len(),
        is_white_space(s[a]),
    ensures
        trim_start(s.subrange(a, s.len() as int)) == trim_start(s.subrange(a + 1, s.len() as int)),
{
    let t = s.subrange(a, s.len() as int);
    assert(t.drop_first() =~= s.subrange(a + 1, s.len() as int));
}

proof fn lemma_trim_end_step(s: Seq<char>, a: int, b: int)
    requires
        0 <= a < b <= s.len(),
        is_white_space(s[b - 1]),
    ensures
        trim_end(s.subrange(a, b)) == trim_end(s.subrange(a, b - 1)),
{
    let t = s.subrange(a, b);
    assert(t.drop_last() =~= s.subrange(a, b - 1));
}

/// Copies `s` without its leading and trailing white space, as `str::trim` does.
pub fn trim_to_string(s: &str) -> (r: String)
    ensures
        r@ == trim(s@),
{
    let n: usize = s.unicode_len();
    let ghost full = s@;
    let mut a: usize = 0;
    assert(full.subrange(0, n as int) =~= full);
    while a < n && char_is_white_space(s.get_char(a))
        invariant
            n == full.len(),
            full == s@,
            a <= n,
            trim_start(full) == trim_start(full.subrange(a as int, n as int)),
        decreases n - a,
    {
        proof {
            lemma_trim_start_step(full, a as int);
        }
        a = a + 1;
    }
    assert(trim_start(full) == full.subrange(a as int, n as int)) by {
        assert(full.subrange(0, n as int) =~= full);
    }
    let mut b: usize = n;
    while b > a && char_is_white_space(s.get_char(b - 1))
        invariant
            n == full.len(),
            full == s@,
            a <= b <= n,
            trim(full) == trim_end(full.subrange(a as int, b as int)),
        decreases b - a,
    {
        proof {
            lemma_trim_end_step(full, a as int, b as int);
        }
        b = b - 1;
    }
    let piece: &str = s.substring_char(a, b);
    String::from_str(piece)
}

/// Whether `a` and `b` hold the same characters.
pub fn str_equal(a: &str, b: &str) -> (r: bool)
    ensures
        r == (a@ == b@),
{
    let n: usize = a.unicode_len();
    if n != b.unicode_len() {
        return false;
    }
    let mut i: usize = 0;
    while i < n
        invariant
            n == a@.len(),
            n == b@.len(),
            i <= n,
            forall|j: int| 0 <= j < i ==> a@[j] == b@[j],
        decreases n - i,
    {
        if a.get_char(i) != b.get_char(i) {
            return false;
        }
        i = i + 1;
    }
    assert(a@ =~= b@);
    true
}

/// Whether `needle` stands in `hay` from position `at` on.
fn matches_at(hay: &str, needle: &str, at: usize) -> (r: bool)
    requires
        at + needle@.len() <= hay@.len(),
        hay@.len() <= usize::MAX,
    ensures
        r == (hay@.subrange(at as int, at + needle@.len()) == needle@),
{
    let m: usize = needle.unicode_len();
    let mut j: usize = 0;
    while j < m
        invariant
            m == needle@.len(),
            at + m <= hay@.len(),
            hay@.len() <= usize::MAX,
            j <= m,
            forall|k: int| 0 <= k < j ==> hay@[at + k] == needle@[k],
        decreases m - j,
    {
        if hay.get_char(at + j) != needle.get_char(j) {
            assert(hay@.subrange(at as int, at + m)[j as int] != needle@[j as int]);
            return false;
        }
        j = j + 1;
    }
    assert(hay@.subrange(at as int, at + m) =~= needle@);
    true
}

/// Whether `s` begins with `prefix`, as `str::starts_with` decides.
pub fn str_starts_with(s: &str, prefix: &str) -> (r: bool)
    ensures
        r == starts_with(s@, prefix@),
{
    let n: usize = s.unicode_len();
    let m: usize = prefix.unicode_len();
    if m > n {
        return false;
    }
    matches_at(s, prefix, 0)
}

/// Whether `needle` occurs in `hay`, as `str::contains` decides.
pub fn str_contains(hay: &str, needle: &str) -> (r: bool)
    ensures
        r == contains_piece(hay@, needle@),
{
    let n: usize = hay.unicode_len();
    let m: usize = needle.unicode_len();
    if m > n {
        return false;
    }
    let last: usize = n - m;
    let mut i: usize = 0;
    loop
        invariant
            n == hay@.len(),
            m == needle@.len(),
            last == n - m,
            i <= last,
            forall|k: int| 0 <= k < i ==> #[trigger] hay@.subrange(k, k + m) != needle@,
        decreases last - i,
    {
        if matches_at(hay, needle, i) {
            return true;
        }
        if i == last {
            return false;
        }
        i = i + 1;
    }
}

} // verus!
