//! Text as sequences of characters: searching, splitting, trimming, joining.

use vstd::prelude::*;
use vstd::slice::slice_subrange;

verus! {

/// `String::push` appends one character.
pub assume_specification[ String::push ](s: &mut String, c: char)
    ensures
        final(s)@ == old(s)@.push(c),
;

/// The characters of each of `strings`.
pub open spec fn texts(strings: Seq<String>) -> Seq<Seq<char>> {
    strings.map_values(|s: String| s@)
}

/// The contents of each of `slices`.
pub open spec fn pieces(slices: Seq<&[char]>) -> Seq<Seq<char>> {
    slices.map_values(|s: &[char]| s@)
}

/// The characters of `s`.
pub fn chars_of(s: &str) -> (r: Vec<char>)
    ensures
        r@ == s@,
{
    let mut r: Vec<char> = Vec::new();
    for c in it: s.chars()
        invariant
            r@ == it.seq().take(it.index() as int),
            it.seq() == s@,
    {
        r.push(c);
    }
    r
}

/// The string made of the characters `s`.
pub fn string_of(s: &[char]) -> (r: String)
    ensures
        r@ == s@,
{
    let mut r = String::new();
    let n: usize = s.len();
    let mut i: usize = 0;
    while i < n
        invariant
            n == s@.len(),
            i <= n,
            r@ == s@.take(i as int),
        decreases n - i,
    {
        r.push(s[i]);
        i += 1;
    }
    assert(s@.take(n as int) =~= s@);
    r
}

/// Whether two character sequences are equal.
pub fn same_chars(a: &[char], b: &[char]) -> (r: bool)
    ensures
        r == (a@ == b@),
{
    if a.len() != b.len() {
        return false;
    }
    let n: usize = a.len();
    let mut i: usize = 0;
    while i < n
        invariant
            n == a@.len(),
            n == b@.len(),
            i <= n,
            forall|k: int| 0 <= k < i ==> a@[k] == b@[k],
        decreases n - i,
    {
        if a[i] != b[i] {
            return false;
        }
        i += 1;
    }
    assert(a@ =~= b@);
    true
}

/// Whether two strings are equal.
pub fn same_text(a: &str, b: &str) -> (r: bool)
    ensures
        r == (a@ == b@),
{
    same_chars(chars_of(a).as_slice(), chars_of(b).as_slice())
}

/// A copy of a string.
pub fn copy_text(s: &str) -> (r: String)
    ensures
        r@ == s@,
{
    string_of(chars_of(s).as_slice())
}

/// Two strings joined.
pub fn join(a: &str, b: &str) -> (r: String)
    ensures
        r@ == a@ + b@,
{
    let mut r = copy_text(a);
    r.append(b);
    r
}

/// Three strings joined.
pub fn join3(a: &str, b: &str, c: &str) -> (r: String)
    ensures
        r@ == a@ + b@ + c@,
{
    let mut r = join(a, b);
    r.append(c);
    r
}

// ---------------------------------------------------------------- white space

/// The characters with the Unicode property White_Space.
pub open spec fn white_space(c: char) -> bool {
    let u = c as u32;
    ||| 0x9 <= u <= 0xd
    ||| u == 0x20
    ||| u == 0x85
    ||| u == 0xa0
    ||| u == 0x1680
    ||| 0x2000 <= u <= 0x200a
    ||| u == 0x2028
    ||| u == 0x2029
    ||| u == 0x202f
    ||| u == 0x205f
    ||| u == 0x3000
}

/// `s` without the white space that it starts with.
pub open spec fn trim_start(s: Seq<char>) -> Seq<char>
    decreases s.len(),
{
    if s.len() > 0 && white_space(s.first()) {
        trim_start(s.drop_first())
    } else {
        s
    }
}

/// `s` without the white space that it ends with.
pub open spec fn trim_end(s: Seq<char>) -> Seq<char>
    decreases s.len(),
{
    if s.len() > 0 && white_space(s.last()) {
        trim_end(s.drop_last())
    } else {
        s
    }
}

/// `s` without the white space that it starts or ends with.
pub open spec fn trimmed(s: Seq<char>) -> Seq<char> {
    trim_end(trim_start(s))
}

/// Whether a character is white space.
pub fn is_white_space(c: char) -> (r: bool)
    ensures
        r == white_space(c),
{
    let u: u32 = c as u32;
    (0x9 <= u && u <= 0xd) || u == 0x20 || u == 0x85 || u == 0xa0 || u == 0x1680 || (0x2000 <= u
        && u <= 0x200a) || u == 0x2028 || u == 0x2029 || u == 0x202f || u == 0x205f || u == 0x3000
}

/// The part of `s` between its outermost white space.
pub fn trim<'a>(s: &'a [char]) -> (r: &'a [char])
    ensures
        r@ == trimmed(s@),
{
    let n: usize = s.len();
    let mut i: usize = 0;
    assert(s@.subrange(0, n as int) =~= s@);
    while i < n && is_white_space(s[i])
        invariant
            n == s@.len(),
            i <= n,
            trim_start(s@) == trim_start(s@.subrange(i as int, n as int)),
        decreases n - i,
    {
        let ghost rest = s@.subrange(i as int, n as int);
        assert(rest.drop_first() =~= s@.subrange(i + 1, n as int));
        i += 1;
    }
    let ghost start = s@.subrange(i as int, n as int);
    assert(trim_start(s@) == start);
    let mut j: usize = n;
    while i < j && is_white_space(s[j - 1])
        invariant
            n == s@.len(),
            i <= j <= n,
            start == s@.subrange(i as int, n as int),
            trim_end(start) == trim_end(s@.subrange(i as int, j as int)),
        decreases j - i,
    {
        let ghost rest = s@.subrange(i as int, j as int);
        assert(rest.drop_last() =~= s@.subrange(i as int, j - 1));
        j -= 1;
    }
    slice_subrange(s, i, j)
}

/// `s` without the characters `c` that it starts or ends with.
pub open spec fn trimmed_of(s: Seq<char>, c: char) -> Seq<char>
    decreases s.len(),
{
    if s.len() > 0 && s.first() == c {
        trimmed_of(s.drop_first(), c)
    } else if s.len() > 0 && s.last() == c {
        trimmed_of(s.drop_last(), c)
    } else {
        s
    }
}

/// The part of `s` between its outermost characters `c`.
pub fn trim_of<'a>(s: &'a [char], c: char) -> (r: &'a [char])
    ensures
        r@ == trimmed_of(s@, c),
{
    let mut i: usize = 0;
    let mut j: usize = s.len();
    assert(s@.subrange(0, j as int) =~= s@);
    while i < j && s[i] == c
        invariant
            i <= j,
            j == s@.len(),
            trimmed_of(s@, c) == trimmed_of(s@.subrange(i as int, j as int), c),
        decreases j - i,
    {
        assert(s@.subrange(i as int, j as int).drop_first() =~= s@.subrange(i + 1, j as int));
        i += 1;
    }
    while i < j && s[j - 1] == c
        invariant
            i <= j <= s@.len(),
            i < j ==> s@[i as int] != c,
            trimmed_of(s@, c) == trimmed_of(s@.subrange(i as int, j as int), c),
        decreases j - i,
    {
        assert(s@.subrange(i as int, j as int).drop_last() =~= s@.subrange(i as int, j - 1));
        j -= 1;
    }
    slice_subrange(s, i, j)
}

// ------------------------------------------------------------------ searching

/// `s` starts with `pat`.
pub open spec fn starts_with(s: Seq<char>, pat: Seq<char>) -> bool {
    pat.len() <= s.len() && s.take(pat.len() as int) == pat
}

/// The place of the first occurrence of `pat` in `s`.
pub open spec fn find(s: Seq<char>, pat: Seq<char>) -> Option<int>
    decreases s.len(),
{
    if starts_with(s, pat) {
        Some(0int)
    } else if s.len() == 0 {
        None
    } else {
        match find(s.drop_first(), pat) {
            Some(i) => Some(i + 1),
            None => None,
        }
    }
}

/// `pat` occurs in `s`.
pub open spec fn contains(s: Seq<char>, pat: Seq<char>) -> bool {
    find(s, pat) is Some
}

/// Where `find` finds something, the pattern stands there, and nowhere before.
pub proof fn lemma_find(s: Seq<char>, pat: Seq<char>)
    ensures
        find(s, pat) matches Some(i) ==> {
            &&& 0 <= i
            &&& i + pat.len() <= s.len()
            &&& s.subrange(i, i + pat.len()) == pat
            &&& forall|j: int| 0 <= j < i ==> !starts_with(#[trigger] s.skip(j), pat)
        },
        find(s, pat) is None ==> forall|j: int|
            0 <= j <= s.len() ==> !starts_with(#[trigger] s.skip(j), pat),
    decreases s.len(),
{
    assert(s.skip(0) =~= s);
    if starts_with(s, pat) {
        assert(s.subrange(0, pat.len() as int) =~= s.take(pat.len() as int));
    } else if s.len() > 0 {
        let rest = s.drop_first();
        lemma_find(rest, pat);
        assert forall|j: int| 1 <= j <= s.len() implies #[trigger] s.skip(j) == rest.skip(
            j - 1,
        ) by {
            assert(s.skip(j) =~= rest.skip(j - 1));
        }
        if let Some(i) = find(rest, pat) {
            assert(rest.subrange(i, i + pat.len()) =~= s.subrange(i + 1, i + 1 + pat.len()));
        }
    }
}

/// What `find` finds does not reach over the end.
pub proof fn lemma_find_bounds(s: Seq<char>, pat: Seq<char>)
    ensures
        find(s, pat) matches Some(i) ==> 0 <= i && i + pat.len() <= s.len(),
{
    lemma_find(s, pat);
}

/// Whether `s` has `pat` at place `at`.
fn stands_at(s: &[char], pat: &[char], at: usize) -> (r: bool)
    requires
        at <= s@.len(),
    ensures
        r == starts_with(s@.skip(at as int), pat@),
{
    if pat.len() > s.len() - at {
        return false;
    }
    let r = same_chars(slice_subrange(s, at, at + pat.len()), pat);
    assert(s@.skip(at as int).take(pat@.len() as int) =~= s@.subrange(
        at as int,
        at + pat@.len(),
    ));
    r
}

/// Whether `s` starts with `pat`.
pub fn has_prefix(s: &[char], pat: &[char]) -> (r: bool)
    ensures
        r == starts_with(s@, pat@),
{
    assert(s@.skip(0) =~= s@);
    stands_at(s, pat, 0)
}

/// Looks for the first occurrence of `pat` in `s`.
pub fn find_in(s: &[char], pat: &[char]) -> (r: Option<usize>)
    ensures
        match r {
            Some(i) => find(s@, pat@) == Some(i as int),
            None => find(s@, pat@) is None,
        },
{
    let n: usize = s.len();
    let mut i: usize = 0;
    assert(s@.skip(0) =~= s@);
    loop
        invariant
            n == s@.len(),
            i <= n,
            match find(s@.skip(i as int), pat@) {
                Some(k) => find(s@, pat@) == Some(i + k),
                None => find(s@, pat@) is None,
            },
        decreases n - i,
    {
        if stands_at(s, pat, i) {
            return Some(i);
        }
        if i == n {
            return None;
        }
        assert(s@.skip(i as int).drop_first() =~= s@.skip(i + 1));
        i += 1;
    }
}

// ------------------------------------------------------- splitting, replacing

/// The parts of `s` between the occurrences of `pat`, read from the left.
pub open spec fn split(s: Seq<char>, pat: Seq<char>) -> Seq<Seq<char>>
    decreases s.len(),
{
    match find(s, pat) {
        Some(i) if pat.len() > 0 => {
            proof {
                lemma_find_bounds(s, pat);
            }
            seq![s.take(i)] + split(s.skip(i + pat.len()), pat)
        },
        _ => seq![s],
    }
}

/// `s` with each occurrence of `pat`, read from the left, replaced by `by`.
pub open spec fn replaced(s: Seq<char>, pat: Seq<char>, by: Seq<char>) -> Seq<char>
    decreases s.len(),
{
    match find(s, pat) {
        Some(i) if pat.len() > 0 => {
            proof {
                lemma_find_bounds(s, pat);
            }
            s.take(i) + by + replaced(s.skip(i + pat.len()), pat, by)
        },
        _ => s,
    }
}

/// A line without the carriage return that it ends with.
pub open spec fn without_return(s: Seq<char>) -> Seq<char> {
    if s.len() > 0 && s.last() == '\r' {
        s.drop_last()
    } else {
        s
    }
}

/// The lines of `s`. A line ends with a line feed, or with a carriage return
/// and a line feed; what follows the last line feed is a line if it is not
/// empty.
pub open spec fn lines(s: Seq<char>) -> Seq<Seq<char>>
    decreases s.len(),
{
    if s.len() == 0 {
        seq![]
    } else {
        match find(s, seq!['\n']) {
            Some(i) => {
                proof {
                    lemma_find_bounds(s, seq!['\n']);
                }
                seq![without_return(s.take(i))] + lines(s.skip(i + 1))
            },
            None => seq![s],
        }
    }
}

/// `s` without the copies of `pat` that it starts with.
pub open spec fn without_prefixes(s: Seq<char>, pat: Seq<char>) -> Seq<char>
    decreases s.len(),
{
    if pat.len() > 0 && starts_with(s, pat) {
        without_prefixes(s.skip(pat.len() as int), pat)
    } else {
        s
    }
}

/// Splits `s` at each occurrence of `pat`.
pub fn split_at_each<'a>(s: &'a [char], pat: &[char]) -> (r: Vec<&'a [char]>)
    requires
        pat@.len() > 0,
    ensures
        pieces(r@) == split(s@, pat@),
{
    let mut r: Vec<&'a [char]> = Vec::new();
    let mut rest: &'a [char] = s;
    assert(pieces(r@) + split(s@, pat@) =~= split(s@, pat@));
    loop
        invariant
            pat@.len() > 0,
            pieces(r@) + split(rest@, pat@) == split(s@, pat@),
        decreases rest@.len(),
    {
        let ghost before = r@;
        match find_in(rest, pat) {
            Some(i) => {
                proof {
                    lemma_find_bounds(rest@, pat@);
                }
                let n: usize = rest.len();
                let head = slice_subrange(rest, 0, i);
                let tail = slice_subrange(rest, i + pat.len(), n);
                assert(head@ =~= rest@.take(i as int));
                assert(tail@ =~= rest@.skip(i + pat@.len()));
                r.push(head);
                assert(pieces(r@) =~= pieces(before).push(head@));
                assert(pieces(r@) + split(tail@, pat@) =~= pieces(before) + (seq![head@] + split(
                    tail@,
                    pat@,
                )));
                rest = tail;
            },
            None => {
                r.push(rest);
                assert(pieces(r@) =~= pieces(before) + seq![rest@]);
                return r;
            },
        }
    }
}

/// Replaces each occurrence of `pat` in `s` by `by`.
pub fn replace_each(s: &[char], pat: &[char], by: &[char]) -> (r: Vec<char>)
    requires
        pat@.len() > 0,
    ensures
        r@ == replaced(s@, pat@, by@),
{
    let mut r: Vec<char> = Vec::new();
    let mut rest: &[char] = s;
    assert(r@ + replaced(s@, pat@, by@) =~= replaced(s@, pat@, by@));
    loop
        invariant
            pat@.len() > 0,
            r@ + replaced(rest@, pat@, by@) == replaced(s@, pat@, by@),
        decreases rest@.len(),
    {
        let ghost before = r@;
        match find_in(rest, pat) {
            Some(i) => {
                proof {
                    lemma_find_bounds(rest@, pat@);
                }
                let n: usize = rest.len();
                let head = slice_subrange(rest, 0, i);
                let tail = slice_subrange(rest, i + pat.len(), n);
                assert(head@ =~= rest@.take(i as int));
                assert(tail@ =~= rest@.skip(i + pat@.len()));
                r.extend_from_slice(head);
                r.extend_from_slice(by);
                assert(r@ =~= before + head@ + by@);
                assert(r@ + replaced(tail@, pat@, by@) =~= before + (head@ + by@ + replaced(
                    tail@,
                    pat@,
                    by@,
                )));
                rest = tail;
            },
            None => {
                r.extend_from_slice(rest);
                assert(r@ =~= before + rest@);
                return r;
            },
        }
    }
}

/// The lines of `s`.
pub fn lines_of<'a>(s: &'a [char]) -> (r: Vec<&'a [char]>)
    ensures
        pieces(r@) == lines(s@),
{
    let mut r: Vec<&'a [char]> = Vec::new();
    let mut rest: &'a [char] = s;
    let feed: Vec<char> = vec!['\n'];
    assert(feed@ =~= seq!['\n']);
    assert(pieces(r@) + lines(s@) =~= lines(s@));
    while rest.len() > 0
        invariant
            feed@ == seq!['\n'],
            pieces(r@) + lines(rest@) == lines(s@),
        decreases rest@.len(),
    {
        let ghost before = r@;
        match find_in(rest, feed.as_slice()) {
            Some(i) => {
                proof {
                    lemma_find_bounds(rest@, seq!['\n']);
                }
                let n: usize = rest.len();
                let end: usize = if i > 0 && rest[i - 1] == '\r' {
                    i - 1
                } else {
                    i
                };
                let head = slice_subrange(rest, 0, end);
                let tail = slice_subrange(rest, i + 1, n);
                assert(head@ =~= without_return(rest@.take(i as int)));
                assert(tail@ =~= rest@.skip(i + 1));
                r.push(head);
                assert(pieces(r@) =~= pieces(before).push(head@));
                assert(pieces(r@) + lines(tail@) =~= pieces(before) + (seq![head@] + lines(tail@)));
                rest = tail;
            },
            None => {
                r.push(rest);
                assert(pieces(r@) =~= pieces(before) + seq![rest@]);
                return r;
            },
        }
    }
    assert(pieces(r@) + lines(rest@) =~= pieces(r@));
    r
}

/// Takes off the copies of `pat` that `s` starts with.
pub fn strip_prefixes<'a>(s: &'a [char], pat: &[char]) -> (r: &'a [char])
    requires
        pat@.len() > 0,
    ensures
        r@ == without_prefixes(s@, pat@),
{
    let mut rest: &'a [char] = s;
    while has_prefix(rest, pat)
        invariant
            pat@.len() > 0,
            without_prefixes(rest@, pat@) == without_prefixes(s@, pat@),
        decreases rest@.len(),
    {
        let n: usize = rest.len();
        let tail = slice_subrange(rest, pat.len(), n);
        assert(tail@ =~= rest@.skip(pat@.len() as int));
        rest = tail;
    }
    rest
}

// ------------------------------------------------------------------------ laws

/// The texts of a list stand in the order of the list, one for each string.
pub proof fn texts_are_those_of_the_strings(strings: Seq<String>)
    ensures
        texts(strings).len() == strings.len(),
        forall|i: int| 0 <= i < strings.len() ==> #[trigger] texts(strings)[i] == strings[i]@,
{
}

/// White space are the twenty-five characters that Unicode lists as such.
pub proof fn white_space_is_that_of_unicode(c: char)
    ensures
        white_space(c) <==> set![
            0x9u32,
            0xau32,
            0xbu32,
            0xcu32,
            0xdu32,
            0x20u32,
            0x85u32,
            0xa0u32,
            0x1680u32,
            0x2000u32,
            0x2001u32,
            0x2002u32,
            0x2003u32,
            0x2004u32,
            0x2005u32,
            0x2006u32,
            0x2007u32,
            0x2008u32,
            0x2009u32,
            0x200au32,
            0x2028u32,
            0x2029u32,
            0x202fu32,
            0x205fu32,
            0x3000u32,
        ].contains(c as u32),
{
}

proof fn lemma_trim_start(a: Seq<char>, t: Seq<char>)
    requires
        forall|i: int| 0 <= i < a.len() ==> white_space(#[trigger] a[i]),
    ensures
        trim_start(a + t) == trim_start(t),
    decreases a.len(),
{
    if a.len() == 0 {
        assert(a + t =~= t);
    } else {
        assert(white_space(a[0]));
        assert((a + t).drop_first() =~= a.drop_first() + t);
        lemma_trim_start(a.drop_first(), t);
    }
}

proof fn lemma_trim_end(t: Seq<char>, b: Seq<char>)
    requires
        forall|i: int| 0 <= i < b.len() ==> white_space(#[trigger] b[i]),
    ensures
        trim_end(t + b) == trim_end(t),
    decreases b.len(),
{
    if b.len() == 0 {
        assert(t + b =~= t);
    } else {
        assert(white_space(b[b.len() - 1]));
        assert((t + b).drop_last() =~= t + b.drop_last());
        lemma_trim_end(t, b.drop_last());
    }
}

/// Trimming takes off the white space on both sides of a text, all of it and
/// nothing else.
pub proof fn trimming_takes_off_white_space(a: Seq<char>, s: Seq<char>, b: Seq<char>)
    requires
        forall|i: int| 0 <= i < a.len() ==> white_space(#[trigger] a[i]),
        forall|i: int| 0 <= i < b.len() ==> white_space(#[trigger] b[i]),
        s.len() > 0 ==> !white_space(s.first()) && !white_space(s.last()),
    ensures
        trimmed(a + s + b) == s,
{
    assert(a + s + b =~= a + (s + b));
    lemma_trim_start(a, s + b);
    if s.len() == 0 {
        assert(s + b =~= b + s);
        lemma_trim_start(b, s);
    } else {
        assert((s + b).first() == s.first());
        lemma_trim_end(s, b);
    }
}

/// Slashes, or any other character, are taken off on both sides of a text, all
/// of them and nothing else.
pub proof fn trimming_takes_off_a_character(a: Seq<char>, s: Seq<char>, b: Seq<char>, c: char)
    requires
        forall|i: int| 0 <= i < a.len() ==> #[trigger] a[i] == c,
        forall|i: int| 0 <= i < b.len() ==> #[trigger] b[i] == c,
        s.len() > 0 ==> s.first() != c && s.last() != c,
    ensures
        trimmed_of(a + s + b, c) == s,
    decreases a.len() + b.len(),
{
    let all = a + s + b;
    if a.len() > 0 {
        assert(all.first() == a[0]);
        assert(all.drop_first() =~= a.drop_first() + s + b);
        trimming_takes_off_a_character(a.drop_first(), s, b, c);
    } else if b.len() > 0 {
        if s.len() == 0 {
            assert(all.first() == b[0]);
            assert(all.drop_first() =~= a + s + b.drop_first());
            trimming_takes_off_a_character(a, s, b.drop_first(), c);
        } else {
            assert(all.first() == s.first());
            assert(all.last() == b[b.len() - 1]);
            assert(all.drop_last() =~= a + s + b.drop_last());
            trimming_takes_off_a_character(a, s, b.drop_last(), c);
        }
    } else {
        assert(all =~= s);
    }
}

/// A text starts with a prefix exactly when it is the prefix and something more.
pub proof fn prefixes_stand_in_front(s: Seq<char>, pat: Seq<char>)
    ensures
        starts_with(s, pat) <==> exists|rest: Seq<char>| s == #[trigger] (pat + rest),
{
    if starts_with(s, pat) {
        assert(s =~= pat + s.skip(pat.len() as int));
    }
    if exists|rest: Seq<char>| s == #[trigger] (pat + rest) {
        let rest = choose|rest: Seq<char>| s == #[trigger] (pat + rest);
        assert(s.take(pat.len() as int) =~= pat);
    }
}

/// What is found is the first occurrence.
pub proof fn the_first_occurrence_is_found(a: Seq<char>, pat: Seq<char>, b: Seq<char>)
    requires
        forall|j: int|
            0 <= j < a.len() ==> #[trigger] (a + pat + b).subrange(j, j + pat.len()) != pat,
    ensures
        find(a + pat + b, pat) == Some(a.len() as int),
{
    let s = a + pat + b;
    let n = a.len() as int;
    lemma_find(s, pat);
    assert(s.skip(n).take(pat.len() as int) =~= pat);
    assert(starts_with(s.skip(n), pat));
    if let Some(i) = find(s, pat) {
        if i < n {
            assert(s.subrange(i, i + pat.len()) == pat);
        }
    }
}

/// Something is found exactly where the text contains it.
pub proof fn what_is_contained_is_found(s: Seq<char>, pat: Seq<char>)
    ensures
        contains(s, pat) <==> exists|a: Seq<char>, b: Seq<char>| s == #[trigger] (a + pat + b),
{
    lemma_find(s, pat);
    if let Some(i) = find(s, pat) {
        assert(s =~= s.take(i) + pat + s.skip(i + pat.len()));
    }
    if exists|a: Seq<char>, b: Seq<char>| s == #[trigger] (a + pat + b) {
        let (a, b) = choose|a: Seq<char>, b: Seq<char>| s == #[trigger] (a + pat + b);
        assert(s.skip(a.len() as int).take(pat.len() as int) =~= pat);
        assert(starts_with(s.skip(a.len() as int), pat));
    }
}

/// A text is split, and a pattern in it replaced, at the first occurrence of the
/// pattern, and then in what follows it.
pub proof fn texts_are_cut_at_each_occurrence(
    a: Seq<char>,
    pat: Seq<char>,
    b: Seq<char>,
    by: Seq<char>,
)
    requires
        pat.len() > 0,
        forall|j: int|
            0 <= j < a.len() ==> #[trigger] (a + pat + b).subrange(j, j + pat.len()) != pat,
    ensures
        split(a + pat + b, pat) == seq![a] + split(b, pat),
        replaced(a + pat + b, pat, by) == a + by + replaced(b, pat, by),
{
    let s = a + pat + b;
    the_first_occurrence_is_found(a, pat, b);
    assert(s.take(a.len() as int) =~= a);
    assert(s.skip((a.len() + pat.len()) as int) =~= b);
}

/// A text without the pattern is one piece and stays as it is.
pub proof fn texts_without_the_pattern_stay_whole(s: Seq<char>, pat: Seq<char>, by: Seq<char>)
    requires
        forall|j: int|
            0 <= j <= s.len() - pat.len() ==> #[trigger] s.subrange(j, j + pat.len()) != pat,
    ensures
        split(s, pat) == seq![s],
        replaced(s, pat, by) == s,
{
    lemma_find(s, pat);
    if let Some(i) = find(s, pat) {
        assert(s.subrange(i, i + pat.len()) == pat);
    }
}

/// The first line of a text reaches up to its first line feed. A carriage return
/// in front of that is no part of it. What follows has its own lines.
pub proof fn lines_end_with_line_feeds(a: Seq<char>, b: Seq<char>)
    requires
        !a.contains('\n'),
    ensures
        a.len() > 0 && a.last() == '\r' ==> lines(a + seq!['\n'] + b) == seq![a.drop_last()]
            + lines(b),
        a.len() == 0 || a.last() != '\r' ==> lines(a + seq!['\n'] + b) == seq![a] + lines(b),
        a.len() > 0 ==> lines(a) == seq![a],
        lines(Seq::empty()) == Seq::<Seq<char>>::empty(),
{
    let feed = seq!['\n'];
    let s = a + feed + b;
    assert forall|j: int| 0 <= j < a.len() implies #[trigger] s.subrange(j, j + feed.len())
        != feed by {
        assert(s.subrange(j, j + 1)[0] == a[j]);
        assert(a.contains(a[j]));
    }
    the_first_occurrence_is_found(a, feed, b);
    assert(s.take(a.len() as int) =~= a);
    assert(s.skip((a.len() + 1) as int) =~= b);
    lemma_find(a, feed);
    if let Some(i) = find(a, feed) {
        assert(a.subrange(i, i + 1)[0] == a[i]);
        assert(a.contains('\n'));
    }
}

/// Each copy of a prefix is taken off, and nothing else.
pub proof fn each_prefix_is_taken_off(s: Seq<char>, pat: Seq<char>)
    requires
        pat.len() > 0,
    ensures
        without_prefixes(pat + s, pat) == without_prefixes(s, pat),
        (forall|rest: Seq<char>| s != #[trigger] (pat + rest)) ==> without_prefixes(s, pat) == s,
{
    let all = pat + s;
    assert(all.take(pat.len() as int) =~= pat);
    assert(all.skip(pat.len() as int) =~= s);
    prefixes_stand_in_front(s, pat);
}

/// White space at the end of a text does not count when it is trimmed.
pub proof fn white_space_at_the_end_does_not_count(s: Seq<char>, b: Seq<char>)
    requires
        forall|i: int| 0 <= i < b.len() ==> white_space(#[trigger] b[i]),
    ensures
        trimmed(s + b) == trimmed(s),
    decreases s.len(),
{
    if s.len() == 0 {
        let nothing = Seq::<char>::empty();
        assert(s + b =~= b);
        assert(b + nothing =~= b);
        lemma_trim_start(b, nothing);
        assert(trim_start(s) =~= nothing);
    } else if white_space(s.first()) {
        assert((s + b).drop_first() =~= s.drop_first() + b);
        white_space_at_the_end_does_not_count(s.drop_first(), b);
    } else {
        assert((s + b).first() == s.first());
        lemma_trim_end(s, b);
    }
}

/// The characters of a text that are no white space, in their order.
pub open spec fn ink(s: Seq<char>) -> Seq<char> {
    s.filter(|c: char| !white_space(c))
}

/// Texts that follow one another have their characters one after another.
pub proof fn ink_follows_the_text(a: Seq<char>, b: Seq<char>)
    ensures
        ink(a + b) == ink(a) + ink(b),
{
    Seq::filter_distributes_over_add(a, b, |c: char| !white_space(c));
}

proof fn lemma_ink_of_one(c: char)
    ensures
        ink(seq![c]) == if white_space(c) {
            Seq::<char>::empty()
        } else {
            seq![c]
        },
{
    let s = seq![c];
    reveal(Seq::filter);
    assert(s.drop_last() =~= Seq::empty());
    assert(s.drop_last().filter(|c: char| !white_space(c)) =~= Seq::empty());
    assert(ink(s) =~= if white_space(c) {
        Seq::<char>::empty()
    } else {
        seq![c]
    });
}

proof fn lemma_ink_trim_start(s: Seq<char>)
    ensures
        ink(trim_start(s)) == ink(s),
    decreases s.len(),
{
    if s.len() > 0 && white_space(s.first()) {
        lemma_ink_trim_start(s.drop_first());
        assert(s =~= seq![s.first()] + s.drop_first());
        ink_follows_the_text(seq![s.first()], s.drop_first());
        lemma_ink_of_one(s.first());
        assert(Seq::<char>::empty() + ink(s.drop_first()) =~= ink(s.drop_first()));
    }
}

proof fn lemma_ink_trim_end(s: Seq<char>)
    ensures
        ink(trim_end(s)) == ink(s),
    decreases s.len(),
{
    if s.len() > 0 && white_space(s.last()) {
        lemma_ink_trim_end(s.drop_last());
        assert(s =~= s.drop_last() + seq![s.last()]);
        ink_follows_the_text(s.drop_last(), seq![s.last()]);
        lemma_ink_of_one(s.last());
        assert(ink(s.drop_last()) + Seq::<char>::empty() =~= ink(s.drop_last()));
    }
}

/// Trimming takes off nothing but white space.
pub proof fn trimming_keeps_the_ink(s: Seq<char>)
    ensures
        ink(trimmed(s)) == ink(s),
{
    lemma_ink_trim_start(s);
    lemma_ink_trim_end(trim_start(s));
}

} // verus!
