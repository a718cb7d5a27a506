//! Citation markers in the assistant's answers.
//!
//! The assistant cites a passage as `【4:0†source】`: the number of the file, the
//! number of the passage. Readers are shown the name of the file instead.

use crate::decimal::all_digits;
use crate::decimal::digits_value;
use crate::decimal::is_digit;
use crate::decimal::natural;
use crate::decimal::natural_reads_back;
use crate::decimal::parse_unsigned;
use crate::decimal::unsigned;
use crate::decimal::unsigned_reads_natural;
use crate::decimal::without_plus;
use crate::directory::Directory;
use crate::text::copy_text;
use crate::text::join3;
use crate::text::starts_with;
use crate::text::texts;
use vstd::prelude::*;

verus! {

/// The form of a citation marker, as a regular expression.
pub const MARKER_PATTERN: &'static str = "【(\\d+):(\\d+)†source】";

/// What a marker and a citation start with.
pub const MARKER_OPEN: &'static str = "【";

/// What a marker and a citation end with.
pub const MARKER_CLOSE: &'static str = "†source】";

/// A character beyond ASCII that `\d` matches in a pattern of the `regex` crate:
/// one that the tables of the crate list as a decimal digit.
pub uninterp spec fn decimal_digit(c: char) -> bool;

/// The characters that `\d` matches: of ASCII the ten digits; of the others,
/// where `†` and `【` are none, those that are `listed`.
pub open spec fn matches_digit(c: char, listed: bool) -> bool {
    if (c as u32) < 0x80 || c == '†' || c == '【' {
        is_digit(c)
    } else {
        listed
    }
}

/// The characters that `\d` matches.
pub open spec fn marker_digits() -> spec_fn(char) -> bool {
    |c: char| matches_digit(c, decimal_digit(c))
}

/// A class of digits: it holds the ten ASCII digits, and not the characters that
/// stand around a number in a marker.
pub open spec fn digit_class(digit: spec_fn(char) -> bool) -> bool {
    &&& forall|c: char| is_digit(c) ==> #[trigger] digit(c)
    &&& !digit(':')
    &&& !digit('†')
    &&& !digit('【')
}

/// How many characters of the class `digit` stand at the start of `s`.
pub open spec fn digit_run(s: Seq<char>, digit: spec_fn(char) -> bool) -> int
    decreases s.len(),
{
    if s.len() > 0 && digit(s.first()) {
        1 + digit_run(s.drop_first(), digit)
    } else {
        0
    }
}

/// The marker that `s` starts with: its first number and its length.
pub open spec fn marker(s: Seq<char>, digit: spec_fn(char) -> bool) -> Option<(Seq<char>, int)> {
    let file = digit_run(s.skip(1), digit);
    let passage = digit_run(s.skip(file + 2), digit);
    let end = file + passage + 2;
    if starts_with(s, MARKER_OPEN@) && file > 0 && starts_with(s.skip(file + 1), ":"@) && passage
        > 0 && starts_with(s.skip(end), MARKER_CLOSE@) {
        Some((s.subrange(1, file + 1), end + MARKER_CLOSE@.len()))
    } else {
        None
    }
}

/// What a marker becomes. Its number counts the files from 1; a marker whose
/// number names no file, or cannot be read, stays as it is.
pub open spec fn citation(
    whole: Seq<char>,
    number: Seq<char>,
    names: Option<Seq<Seq<char>>>,
) -> Seq<char> {
    match (names, unsigned(number, usize::MAX as int)) {
        (Some(n), Some(i)) if 0 < i <= n.len() => MARKER_OPEN@ + n[i - 1] + MARKER_CLOSE@,
        _ => whole,
    }
}

/// `s` with each marker, read from the left, turned into a citation.
pub open spec fn rewritten(
    s: Seq<char>,
    names: Option<Seq<Seq<char>>>,
    digit: spec_fn(char) -> bool,
) -> Seq<char>
    decreases s.len(),
{
    if s.len() == 0 {
        s
    } else {
        match marker(s, digit) {
            Some((number, n)) if 0 < n <= s.len() => {
                citation(s.take(n), number, names) + rewritten(s.skip(n), names, digit)
            },
            _ => seq![s.first()] + rewritten(s.drop_first(), names, digit),
        }
    }
}

/// `s` with its citation markers turned into citations.
pub open spec fn cited(s: Seq<char>, names: Option<Seq<Seq<char>>>) -> Seq<char> {
    rewritten(s, names, marker_digits())
}

/// The texts of a list of file names.
pub open spec fn name_texts(names: Option<&Vec<String>>) -> Option<Seq<Seq<char>>> {
    match names {
        Some(n) => Some(texts(n@)),
        None => None,
    }
}

/// The file names of a bot.
pub open spec fn names_of_bot(
    files: Map<Seq<char>, Vec<String>>,
    bot_name: Seq<char>,
) -> Option<Seq<Seq<char>>> {
    if files.contains_key(bot_name) {
        Some(texts(files[bot_name]@))
    } else {
        None
    }
}

/// What a marker with the given number becomes.
pub fn cite(whole: &str, number: &str, names: Option<&Vec<String>>) -> (r: String)
    ensures
        r@ == citation(whole@, number@, name_texts(names)),
{
    if let Some(names) = names {
        if let Some(i) = parse_unsigned(number, usize::MAX as u64) {
            if 0 < i && i <= names.len() as u64 {
                let at: usize = (i - 1) as usize;
                assert(texts(names@)[at as int] == names@[at as int]@);
                return join3(MARKER_OPEN, names[at].as_str(), MARKER_CLOSE);
            }
        }
    }
    copy_text(whole)
}

/// `regex::Regex::replace_all`, on the pattern of a marker: each match, from
/// the left and without overlap, is replaced by what the function makes of the
/// whole match and of its first group; the rest of the text stays. A match is
/// `【`, one or more characters of the class `\d`, a colon, one or more
/// characters of that class, and `†source】`. Of the ASCII characters the class
/// holds the ten digits; `†` and `【` are not in it.
#[verifier::external_body]
fn replace_markers(pattern: &str, text: &str, names: Option<&Vec<String>>) -> (r: String)
    requires
        pattern@ == MARKER_PATTERN@,
    ensures
        r@ == rewritten(
            text@,
            name_texts(names),
            |c: char| matches_digit(c, decimal_digit(c)),
        ),
{
    let re = regex::Regex::new(pattern).unwrap();
    re.replace_all(text, |caps: &regex::Captures| cite(&caps[0], &caps[1], names)).into_owned()
}

/// Turns the citation markers of an answer into the names of the bot's files.
pub fn replace_citations(text: &str, bot_name: &str, files: &Directory<Vec<String>>) -> (r: String)
    ensures
        r@ == cited(text@, names_of_bot(files@, bot_name@)),
{
    let names = files.get(bot_name);
    replace_markers(MARKER_PATTERN, text, names)
}

// ------------------------------------------------------------------------ laws

proof fn lemma_without_names(s: Seq<char>, digit: spec_fn(char) -> bool)
    ensures
        rewritten(s, None, digit) == s,
    decreases s.len(),
{
    if s.len() > 0 {
        match marker(s, digit) {
            Some((number, n)) if 0 < n <= s.len() => {
                lemma_without_names(s.skip(n), digit);
                assert(s.take(n) + s.skip(n) =~= s);
            },
            _ => {
                lemma_without_names(s.drop_first(), digit);
                assert(seq![s.first()] + s.drop_first() =~= s);
            },
        }
    }
}

proof fn lemma_before_marker(
    before: Seq<char>,
    s: Seq<char>,
    names: Option<Seq<Seq<char>>>,
    digit: spec_fn(char) -> bool,
)
    requires
        !before.contains('【'),
    ensures
        rewritten(before + s, names, digit) == before + rewritten(s, names, digit),
    decreases before.len(),
{
    reveal_strlit("【");
    let all = before + s;
    if before.len() == 0 {
        assert(all =~= s);
        assert(before + rewritten(s, names, digit) =~= rewritten(s, names, digit));
    } else {
        let rest = before.drop_first();
        assert(before.contains(before[0]));
        assert(all.first() == before[0]);
        if starts_with(all, MARKER_OPEN@) {
            assert(all.take(1)[0] == '【');
        }
        assert(marker(all, digit) is None);
        assert(!rest.contains('【')) by {
            if rest.contains('【') {
                let i = choose|i: int| 0 <= i < rest.len() && rest[i] == '【';
                assert(before[i + 1] == '【');
            }
        }
        lemma_before_marker(rest, s, names, digit);
        assert(all.drop_first() =~= rest + s);
        assert(before + rewritten(s, names, digit) =~= seq![all.first()] + (rest + rewritten(
            s,
            names,
            digit,
        )));
    }
}

/// The digits in front of something that is no digit are the run of digits.
proof fn lemma_digit_run(digits: Seq<char>, s: Seq<char>, digit: spec_fn(char) -> bool)
    requires
        forall|i: int| 0 <= i < digits.len() ==> digit(#[trigger] digits[i]),
        s.len() > 0,
        !digit(s.first()),
    ensures
        digit_run(digits + s, digit) == digits.len(),
    decreases digits.len(),
{
    let all = digits + s;
    if digits.len() == 0 {
        assert(all =~= s);
    } else {
        assert(all.first() == digits[0]);
        assert(all.drop_first() =~= digits.drop_first() + s);
        lemma_digit_run(digits.drop_first(), s, digit);
    }
}

/// A marker: the number of a file and the number of a passage.
pub open spec fn marker_of(file: nat, passage: nat) -> Seq<char> {
    MARKER_OPEN@ + natural(file) + ":"@ + natural(passage) + MARKER_CLOSE@
}

#[verifier::rlimit(40)]
proof fn lemma_marker(
    file: nat,
    passage: nat,
    rest: Seq<char>,
    names: Seq<Seq<char>>,
    digit: spec_fn(char) -> bool,
)
    requires
        digit_class(digit),
        names.len() <= usize::MAX,
    ensures
        1 <= file <= names.len() ==> rewritten(
            marker_of(file, passage) + rest,
            Some(names),
            digit,
        ) == MARKER_OPEN@ + names[file - 1] + MARKER_CLOSE@ + rewritten(rest, Some(names), digit),
        !(1 <= file <= names.len()) ==> rewritten(
            marker_of(file, passage) + rest,
            Some(names),
            digit,
        ) == marker_of(file, passage) + rewritten(rest, Some(names), digit),
{
    reveal_strlit("【");
    reveal_strlit(":");
    reveal_strlit("†source】");
    natural_reads_back(file);
    natural_reads_back(passage);
    let a = natural(file);
    let b = natural(passage);
    let close = MARKER_CLOSE@;
    let m = marker_of(file, passage);
    let s = m + rest;
    // the number of the file
    let after_open = s.skip(1);
    let after_file = ":"@ + b + close + rest;
    assert(after_open =~= a + after_file);
    assert(after_file.first() == ':');
    assert forall|i: int| 0 <= i < a.len() implies digit(#[trigger] a[i]) by {
        assert(is_digit(a[i]));
    }
    lemma_digit_run(a, after_file, digit);
    // the number of the passage
    let n = a.len() as int;
    let after_colon = s.skip(n + 2);
    let after_passage = close + rest;
    assert(after_colon =~= b + after_passage);
    assert(after_passage.first() == '†');
    assert forall|i: int| 0 <= i < b.len() implies digit(#[trigger] b[i]) by {
        assert(is_digit(b[i]));
    }
    lemma_digit_run(b, after_passage, digit);
    // the whole marker
    let k = b.len() as int;
    assert(s.take(1) =~= MARKER_OPEN@);
    assert(s.skip(n + 1).take(1) =~= ":"@);
    assert(s.skip(n + k + 2).take(close.len() as int) =~= close);
    assert(s.subrange(1, n + 1) =~= a);
    assert(marker(s, digit) == Some((a, m.len() as int)));
    assert(s.take(m.len() as int) =~= m);
    assert(s.skip(m.len() as int) =~= rest);
    if file <= usize::MAX {
        unsigned_reads_natural(file, usize::MAX as int);
    } else {
        assert(is_digit(a[0]));
        assert(without_plus(a) == a);
    }
}

/// What `\d` matches is a class of digits.
proof fn lemma_marker_digits()
    ensures
        digit_class(marker_digits()),
{
    assert forall|c: char| is_digit(c) implies #[trigger] marker_digits()(c) by {}
}

/// A run of digits holds digits only, and what follows it is none.
proof fn lemma_run_of_digits(s: Seq<char>, digit: spec_fn(char) -> bool)
    ensures
        0 <= digit_run(s, digit) <= s.len(),
        forall|i: int| 0 <= i < digit_run(s, digit) ==> digit(#[trigger] s[i]),
        digit_run(s, digit) < s.len() ==> !digit(s[digit_run(s, digit)]),
    decreases s.len(),
{
    if s.len() > 0 && digit(s.first()) {
        let rest = s.drop_first();
        lemma_run_of_digits(rest, digit);
        assert forall|i: int| 0 <= i < digit_run(s, digit) implies digit(#[trigger] s[i]) by {
            if i > 0 {
                assert(s[i] == rest[i - 1]);
            }
        }
    }
}

/// The length of the marker that `s` starts with.
spec fn marker_len(s: Seq<char>, digit: spec_fn(char) -> bool) -> int {
    match marker(s, digit) {
        Some((_, n)) => n,
        None => 0,
    }
}

/// What a marker is made of: it lies inside the text, holds `【` only at its
/// start, and stands in each text that starts with the same characters.
#[verifier::rlimit(40)]
proof fn lemma_marker_is_local(s: Seq<char>, t: Seq<char>, digit: spec_fn(char) -> bool)
    requires
        digit_class(digit),
        marker(s, digit) is Some,
    ensures
        0 < marker_len(s, digit) <= s.len(),
        s[0] == '【',
        forall|i: int| 1 <= i < marker_len(s, digit) ==> #[trigger] s[i] != '【',
        marker_len(s, digit) <= t.len() && t.take(marker_len(s, digit)) == s.take(
            marker_len(s, digit),
        ) ==> marker(t, digit) == marker(s, digit),
{
    reveal_strlit("【");
    reveal_strlit(":");
    reveal_strlit("†source】");
    let close = MARKER_CLOSE@;
    let (number, n) = marker(s, digit)->0;
    let file = digit_run(s.skip(1), digit);
    let passage = digit_run(s.skip(file + 2), digit);
    let end = file + passage + 2;
    assert(s.take(1)[0] == '【');
    lemma_run_of_digits(s.skip(1), digit);
    assert(s.skip(file + 1).take(1)[0] == ':');
    assert(s[file + 1] == ':');
    lemma_run_of_digits(s.skip(file + 2), digit);
    assert(n == end + close.len());
    assert forall|i: int| end <= i < n implies #[trigger] s[i] == close[i - end] by {
        assert(s.skip(end).take(close.len() as int)[i - end] == s[i]);
    }
    assert(s[end] == '†');
    assert forall|i: int| 1 <= i < n implies #[trigger] s[i] != '【' by {
        if i < file + 1 {
            assert(s.skip(1)[i - 1] == s[i]);
        } else if file + 2 <= i < end {
            assert(s.skip(file + 2)[i - file - 2] == s[i]);
        } else if end <= i {
            assert(s[i] == close[i - end]);
        }
    }
    if n <= t.len() && t.take(n) == s.take(n) {
        assert forall|i: int| 0 <= i < n implies #[trigger] t[i] == s[i] by {
            assert(t.take(n)[i] == s.take(n)[i]);
        }
        let a = s.subrange(1, file + 1);
        assert forall|i: int| 0 <= i < a.len() implies digit(#[trigger] a[i]) by {
            assert(a[i] == s.skip(1)[i]);
        }
        assert(t.skip(1) =~= a + t.skip(file + 1));
        assert(t.skip(file + 1).first() == ':');
        lemma_digit_run(a, t.skip(file + 1), digit);
        let b = s.subrange(file + 2, end);
        assert forall|i: int| 0 <= i < b.len() implies digit(#[trigger] b[i]) by {
            assert(b[i] == s.skip(file + 2)[i]);
        }
        assert(t.skip(file + 2) =~= b + t.skip(end));
        assert(t.skip(end).first() == '†');
        lemma_digit_run(b, t.skip(end), digit);
        assert(t.take(1) =~= MARKER_OPEN@);
        assert(t.skip(file + 1).take(1) =~= ":"@);
        assert(t.skip(end).take(close.len() as int) =~= close);
        assert(t.subrange(1, file + 1) =~= a);
    }
}

/// A citation whose name holds no colon starts no marker.
proof fn lemma_citation_is_no_marker(
    name: Seq<char>,
    rest: Seq<char>,
    digit: spec_fn(char) -> bool,
)
    requires
        digit_class(digit),
        !name.contains(':'),
    ensures
        marker(MARKER_OPEN@ + name + MARKER_CLOSE@ + rest, digit) is None,
{
    reveal_strlit("【");
    reveal_strlit(":");
    reveal_strlit("†source】");
    let s = MARKER_OPEN@ + name + MARKER_CLOSE@ + rest;
    let inner = s.skip(1);
    assert(inner =~= name + MARKER_CLOSE@ + rest);
    let file = digit_run(inner, digit);
    lemma_run_of_digits(inner, digit);
    assert(inner[name.len() as int] == '†');
    assert(file <= name.len()) by {
        if file > name.len() {
            assert(digit(inner[name.len() as int]));
        }
    }
    if starts_with(s.skip(file + 1), ":"@) {
        assert(s.skip(file + 1).take(1)[0] == ':');
        assert(inner[file] == ':');
        if file < name.len() {
            assert(name[file] == ':');
            assert(name.contains(name[file]));
        }
    }
}

/// A text that starts with `【` is still one after the rewriting.
proof fn lemma_open_stays(
    s: Seq<char>,
    names: Option<Seq<Seq<char>>>,
    digit: spec_fn(char) -> bool,
)
    requires
        s.len() > 0,
        s.first() == '【',
    ensures
        rewritten(s, names, digit).len() > 0,
        rewritten(s, names, digit).first() == '【',
{
    reveal_strlit("【");
    reveal_strlit("†source】");
    match marker(s, digit) {
        Some((number, n)) if 0 < n <= s.len() => {
            assert(citation(s.take(n), number, names).first() == '【');
        },
        _ => {},
    }
}

/// The part of a text up to the next `【`.
spec fn up_to_open(s: Seq<char>) -> int
    decreases s.len(),
{
    if s.len() > 0 && s.first() != '【' {
        1 + up_to_open(s.drop_first())
    } else {
        0
    }
}

proof fn lemma_up_to_open(s: Seq<char>)
    ensures
        0 <= up_to_open(s) <= s.len(),
        !s.take(up_to_open(s)).contains('【'),
        up_to_open(s) < s.len() ==> s[up_to_open(s)] == '【',
    decreases s.len(),
{
    if s.len() > 0 && s.first() != '【' {
        let rest = s.drop_first();
        lemma_up_to_open(rest);
        let k = up_to_open(s);
        if s.take(k).contains('【') {
            let i = choose|i: int| 0 <= i < k && s.take(k)[i] == '【';
            assert(i > 0);
            assert(rest.take(k - 1)[i - 1] == '【');
            assert(rest.take(k - 1).contains('【'));
        }
    }
}

/// Where a text starts with no marker, it starts with none after what follows
/// its first character was rewritten.
proof fn lemma_no_marker_arises(
    s: Seq<char>,
    names: Option<Seq<Seq<char>>>,
    digit: spec_fn(char) -> bool,
)
    requires
        digit_class(digit),
        s.len() > 0,
        marker(s, digit) is None,
    ensures
        marker(seq![s.first()] + rewritten(s.drop_first(), names, digit), digit) is None,
{
    let rest = s.drop_first();
    let t = seq![s.first()] + rewritten(rest, names, digit);
    if marker(t, digit) is Some {
        let n = marker_len(t, digit);
        lemma_marker_is_local(t, s, digit);
        lemma_up_to_open(rest);
        let k = up_to_open(rest);
        let before = rest.take(k);
        let after = rest.skip(k);
        assert(rest =~= before + after);
        lemma_before_marker(before, after, names, digit);
        assert(t =~= seq![s.first()] + before + rewritten(after, names, digit));
        if after.len() > 0 {
            assert(after.first() == '【');
            lemma_open_stays(after, names, digit);
            assert(t[k + 1] == '【');
        } else {
            assert(t.len() == k + 1);
        }
        assert(n <= k + 1);
        assert(s.take(n) =~= t.take(n));
    }
}

#[verifier::rlimit(40)]
proof fn lemma_cited_twice(
    s: Seq<char>,
    names: Seq<Seq<char>>,
    digit: spec_fn(char) -> bool,
)
    requires
        digit_class(digit),
        forall|i: int|
            0 <= i < names.len() ==> !(#[trigger] names[i]).contains(':') && !names[i].contains(
                '【',
            ),
    ensures
        rewritten(rewritten(s, Some(names), digit), Some(names), digit) == rewritten(
            s,
            Some(names),
            digit,
        ),
    decreases s.len(),
{
    reveal_strlit("【");
    reveal_strlit("†source】");
    let once = rewritten(s, Some(names), digit);
    if s.len() > 0 {
        if marker(s, digit) is Some {
            let (number, n) = marker(s, digit)->0;
            lemma_marker_is_local(s, s, digit);
            let m = s.take(n);
            let rest = rewritten(s.skip(n), Some(names), digit);
            lemma_cited_twice(s.skip(n), names, digit);
            let c = citation(m, number, Some(names));
            match unsigned(number, usize::MAX as int) {
                Some(i) if 0 < i <= names.len() => {
                    let name = names[i - 1];
                    lemma_citation_is_no_marker(name, rest, digit);
                    let inner = name + MARKER_CLOSE@;
                    assert(!inner.contains('【')) by {
                        if inner.contains('【') {
                            let j = choose|j: int| 0 <= j < inner.len() && inner[j] == '【';
                            if j < name.len() {
                                assert(name.contains(name[j]));
                            } else {
                                assert(MARKER_CLOSE@[j - name.len()] == '【');
                            }
                        }
                    }
                    lemma_before_marker(inner, rest, Some(names), digit);
                    assert(once.first() == '【');
                    assert(once.drop_first() =~= inner + rest);
                    assert(seq![once.first()] + (inner + rest) =~= once);
                },
                _ => {
                    assert(c == m);
                    assert(once == m + rest);
                    assert(once.take(n) =~= m);
                    assert(once.skip(n) =~= rest);
                    lemma_marker_is_local(s, once, digit);
                },
            }
        } else {
            let rest = rewritten(s.drop_first(), Some(names), digit);
            lemma_cited_twice(s.drop_first(), names, digit);
            lemma_no_marker_arises(s, Some(names), digit);
            assert(once.drop_first() =~= rest);
        }
    }
}

/// A bot without a list of file names sends each text as it stands.
pub proof fn without_names_nothing_changes(s: Seq<char>)
    ensures
        cited(s, None) == s,
{
    lemma_without_names(s, marker_digits());
}

/// What stands before the first `【` of a text stays as it is.
pub proof fn text_before_a_marker_stays(
    before: Seq<char>,
    s: Seq<char>,
    names: Option<Seq<Seq<char>>>,
)
    requires
        !before.contains('【'),
    ensures
        cited(before + s, names) == before + cited(s, names),
{
    lemma_before_marker(before, s, names, marker_digits());
}

/// A text that holds no `【` stays as it is.
pub proof fn text_without_markers_stays(s: Seq<char>, names: Option<Seq<Seq<char>>>)
    requires
        !s.contains('【'),
    ensures
        cited(s, names) == s,
{
    let nothing = Seq::<char>::empty();
    text_before_a_marker_stays(s, nothing, names);
    assert(s + nothing =~= s);
    assert(s + cited(nothing, names) =~= s);
}

/// A marker that numbers one of the files becomes a citation of that file; one
/// that numbers no file stays; the text after it is rewritten in turn.
pub proof fn markers_become_citations(
    file: nat,
    passage: nat,
    rest: Seq<char>,
    names: Seq<Seq<char>>,
)
    requires
        names.len() <= usize::MAX,
    ensures
        cited(marker_of(file, passage) + rest, Some(names)) == if 1 <= file <= names.len() {
            MARKER_OPEN@ + names[file - 1] + MARKER_CLOSE@ + cited(rest, Some(names))
        } else {
            marker_of(file, passage) + cited(rest, Some(names))
        },
{
    lemma_marker_digits();
    lemma_marker(file, passage, rest, names, marker_digits());
}

/// Citing twice is citing once, where no name holds a colon or `【`: nothing in
/// a text that was rewritten is rewritten again.
pub proof fn citing_twice_is_citing_once(s: Seq<char>, names: Option<Seq<Seq<char>>>)
    requires
        names matches Some(n) ==> forall|i: int|
            0 <= i < n.len() ==> !(#[trigger] n[i]).contains(':') && !n[i].contains('【'),
    ensures
        cited(cited(s, names), names) == cited(s, names),
{
    match names {
        Some(n) => {
            lemma_marker_digits();
            lemma_cited_twice(s, n, marker_digits());
        },
        None => {
            without_names_nothing_changes(s);
        },
    }
}

/// A number of a marker: one character or more, each an ASCII digit or a listed
/// digit beyond ASCII.
pub open spec fn is_marker_number(s: Seq<char>) -> bool {
    &&& s.len() > 0
    &&& forall|i: int|
        0 <= i < s.len() ==> {
            ||| '0' <= #[trigger] s[i] <= '9'
            ||| s[i] as u32 >= 0x80 && s[i] != '†' && s[i] != '【' && decimal_digit(s[i])
        }
}

#[verifier::rlimit(40)]
proof fn lemma_marker_of_numbers(
    a: Seq<char>,
    b: Seq<char>,
    rest: Seq<char>,
    names: Option<Seq<Seq<char>>>,
)
    requires
        is_marker_number(a),
        is_marker_number(b),
    ensures
        ({
            let m = "【"@ + a + ":"@ + b + "†source】"@;
            cited(m + rest, names) == citation(m, a, names) + cited(rest, names)
        }),
{
    reveal_strlit("【");
    reveal_strlit(":");
    reveal_strlit("†source】");
    lemma_marker_digits();
    let digit = marker_digits();
    let close = MARKER_CLOSE@;
    let m = "【"@ + a + ":"@ + b + "†source】"@;
    let s = m + rest;
    let after_file = ":"@ + b + close + rest;
    assert(s.skip(1) =~= a + after_file);
    assert(after_file.first() == ':');
    assert forall|i: int| 0 <= i < a.len() implies digit(#[trigger] a[i]) by {}
    lemma_digit_run(a, after_file, digit);
    let n = a.len() as int;
    let after_passage = close + rest;
    assert(s.skip(n + 2) =~= b + after_passage);
    assert(after_passage.first() == '†');
    assert forall|i: int| 0 <= i < b.len() implies digit(#[trigger] b[i]) by {}
    lemma_digit_run(b, after_passage, digit);
    let k = b.len() as int;
    assert(s.take(1) =~= MARKER_OPEN@);
    assert(s.skip(n + 1).take(1) =~= ":"@);
    assert(s.skip(n + k + 2).take(close.len() as int) =~= close);
    assert(s.subrange(1, n + 1) =~= a);
    assert(marker(s, digit) == Some((a, m.len() as int)));
    assert(s.take(m.len() as int) =~= m);
    assert(s.skip(m.len() as int) =~= rest);
}

/// In a text for a bot whose files are known, a marker with the number k becomes a
/// citation with the k-th name of the list that was entered for the bot, whichever
/// of the names it is. A marker with any other number stays. What stands before it
/// stays, and what follows it is rewritten in turn.
pub proof fn markers_are_cited_by_the_files_of_the_bot(
    files: Map<Seq<char>, Vec<String>>,
    bot_name: Seq<char>,
    before: Seq<char>,
    a: Seq<char>,
    b: Seq<char>,
    rest: Seq<char>,
)
    requires
        files.contains_key(bot_name),
        !before.contains('【'),
        is_marker_number(a),
        is_marker_number(b),
    ensures
        ({
            let list = files[bot_name]@;
            let names = names_of_bot(files, bot_name);
            let m = "【"@ + a + ":"@ + b + "†source】"@;
            let k = digits_value(a);
            cited(before + (m + rest), names) == before + (if all_digits(a) && 1 <= k
                <= list.len() {
                "【"@ + list[k - 1]@ + "†source】"@
            } else {
                m
            } + cited(rest, names))
        }),
{
    let list = files[bot_name]@;
    let names = names_of_bot(files, bot_name);
    let m = "【"@ + a + ":"@ + b + "†source】"@;
    text_before_a_marker_stays(before, m + rest, names);
    lemma_marker_of_numbers(a, b, rest, names);
    assert(files[bot_name].len() == list.len());
    assert(a[0] != '+');
    assert(without_plus(a) == a);
    let k = digits_value(a);
    if 1 <= k <= list.len() {
        assert(texts(list)[k - 1] == list[k - 1]@);
    }
}

/// The k-th file of a bot is cited by its name, for each number of a file.
pub proof fn each_file_is_cited_by_its_name(
    files: Map<Seq<char>, Vec<String>>,
    bot_name: Seq<char>,
    k: nat,
    passage: nat,
)
    requires
        files.contains_key(bot_name),
        1 <= k <= files[bot_name]@.len(),
    ensures
        cited(
            "【"@ + natural(k) + ":"@ + natural(passage) + "†source】"@,
            names_of_bot(files, bot_name),
        ) == "【"@ + files[bot_name]@[k - 1]@ + "†source】"@,
{
    natural_reads_back(k);
    natural_reads_back(passage);
    let a = natural(k);
    let b = natural(passage);
    assert forall|i: int| 0 <= i < a.len() implies '0' <= #[trigger] a[i] <= '9' by {
        assert(is_digit(a[i]));
    }
    assert forall|i: int| 0 <= i < b.len() implies '0' <= #[trigger] b[i] <= '9' by {
        assert(is_digit(b[i]));
    }
    let nothing = Seq::<char>::empty();
    let m = "【"@ + a + ":"@ + b + "†source】"@;
    let c = "【"@ + files[bot_name]@[k - 1]@ + "†source】"@;
    markers_are_cited_by_the_files_of_the_bot(files, bot_name, nothing, a, b, nothing);
    assert(nothing + (m + nothing) =~= m);
    assert(nothing + (c + nothing) =~= c);
    assert(cited(nothing, names_of_bot(files, bot_name)) == nothing);
}

/// A text for a bot whose files are not known stays as it is.
pub proof fn unknown_files_are_not_cited(
    files: Map<Seq<char>, Vec<String>>,
    bot_name: Seq<char>,
    s: Seq<char>,
)
    requires
        !files.contains_key(bot_name),
    ensures
        cited(s, names_of_bot(files, bot_name)) == s,
{
    without_names_nothing_changes(s);
}

/// A run of what `\d` matches is a number of a marker.
proof fn lemma_is_number(a: Seq<char>)
    requires
        a.len() > 0,
        forall|i: int| 0 <= i < a.len() ==> marker_digits()(#[trigger] a[i]),
    ensures
        is_marker_number(a),
{
    assert forall|i: int| 0 <= i < a.len() implies ('0' <= #[trigger] a[i] <= '9' || a[i] as u32
        >= 0x80 && a[i] != '†' && a[i] != '【' && decimal_digit(a[i])) by {
        assert(marker_digits()(a[i]));
    }
}

/// The parts of a text that starts with a marker: the two numbers, and what
/// follows the marker.
#[verifier::rlimit(40)]
proof fn lemma_marker_parts(s: Seq<char>) -> (r: (Seq<char>, Seq<char>, Seq<char>))
    requires
        marker(s, marker_digits()) is Some,
    ensures
        is_marker_number(r.0),
        is_marker_number(r.1),
        s == "【"@ + (r.0 + ":"@ + r.1 + "†source】"@ + r.2),
{
    reveal_strlit("【");
    reveal_strlit(":");
    reveal_strlit("†source】");
    let digit = marker_digits();
    let close = MARKER_CLOSE@;
    let file = digit_run(s.skip(1), digit);
    let passage = digit_run(s.skip(file + 2), digit);
    let end = file + passage + 2;
    lemma_run_of_digits(s.skip(1), digit);
    lemma_run_of_digits(s.skip(file + 2), digit);
    let a = s.subrange(1, file + 1);
    let b = s.subrange(file + 2, end);
    let t = s.skip(end + close.len());
    assert forall|i: int| 0 <= i < a.len() implies digit(#[trigger] a[i]) by {
        assert(a[i] == s.skip(1)[i]);
    }
    assert forall|i: int| 0 <= i < b.len() implies digit(#[trigger] b[i]) by {
        assert(b[i] == s.skip(file + 2)[i]);
    }
    lemma_is_number(a);
    lemma_is_number(b);
    assert(s.take(1)[0] == s[0]);
    assert(s.skip(file + 1).take(1)[0] == s[file + 1]);
    assert forall|i: int| end <= i < end + close.len() implies #[trigger] s[i] == close[i
        - end] by {
        assert(s.skip(end).take(close.len() as int)[i - end] == s[i]);
    }
    assert(s =~= "【"@ + (a + ":"@ + b + "†source】"@ + t));
    (a, b, t)
}

/// A `【` that starts no marker stays, and what follows it is rewritten as if it
/// stood alone.
pub proof fn brackets_without_a_marker_stay(s: Seq<char>, names: Option<Seq<Seq<char>>>)
    requires
        forall|a: Seq<char>, b: Seq<char>, t: Seq<char>|
            is_marker_number(a) && is_marker_number(b) ==> s != #[trigger] (a + ":"@ + b
                + "†source】"@ + t),
    ensures
        cited("【"@ + s, names) == "【"@ + cited(s, names),
{
    reveal_strlit("【");
    let all = "【"@ + s;
    assert(all.drop_first() =~= s);
    if marker(all, marker_digits()) is Some {
        let (a, b, t) = lemma_marker_parts(all);
        assert(s =~= a + ":"@ + b + "†source】"@ + t);
    }
    assert(seq![all.first()] + cited(s, names) =~= "【"@ + cited(s, names));
}

} // verus!
