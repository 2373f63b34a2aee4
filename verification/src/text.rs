//! Text as a sequence of characters: what trimming, searching, splitting and
//! joining mean, and functions that do so.

use vstd::prelude::*;
use vstd::utf8::{decode_utf8, valid_utf8};

verus! {

/// `String::push` appends one character at the end of the string and changes
/// nothing else.
pub assume_specification[ std::string::String::push ](s: &mut std::string::String, ch: char)
    ensures
        final(s)@ == old(s)@.push(ch),
;

/// What `String::from_utf8_lossy` makes of `bytes`.
pub uninterp spec fn utf8_lossy(bytes: Seq<u8>) -> Seq<char>;

/// `String::from_utf8_lossy`: the text depends on the bytes alone, and is what
/// they encode where they are valid UTF-8. Which replacement characters stand
/// for invalid bytes is left to the name `utf8_lossy`.
#[verifier::external_body]
pub(crate) fn decode_lossy(bytes: &[u8]) -> (r: String)
    ensures
        r@ == utf8_lossy(bytes@),
        valid_utf8(bytes@) ==> r@ == decode_utf8(bytes@),
{
    String::from_utf8_lossy(bytes).into_owned()
}

/// The characters with the Unicode property `White_Space`.
pub open spec fn white_space(c: char) -> bool {
    let code = c as u32;
    ||| 0x9 <= code <= 0xd
    ||| code == 0x20
    ||| code == 0x85
    ||| code == 0xa0
    ||| code == 0x1680
    ||| 0x2000 <= code <= 0x200a
    ||| code == 0x2028
    ||| code == 0x2029
    ||| code == 0x202f
    ||| code == 0x205f
    ||| code == 0x3000
}

/// ASCII letters and digits.
pub open spec fn ascii_alphanumeric(c: char) -> bool {
    ||| '0' <= c <= '9'
    ||| 'a' <= c <= 'z'
    ||| 'A' <= c <= 'Z'
}

/// `c` with an ASCII upper-case letter made lower-case.
pub open spec fn ascii_lower(c: char) -> char {
    if 'A' <= c <= 'Z' {
        (c as u32 + 32) as char
    } else {
        c
    }
}

/// `s` without its leading white space.
pub open spec fn trim_start(s: Seq<char>) -> Seq<char>
    decreases s.len(),
{
    if s.len() > 0 && white_space(s[0]) {
        trim_start(s.drop_first())
    } else {
        s
    }
}

/// `s` without its trailing white space.
pub open spec fn trim_end(s: Seq<char>) -> Seq<char>
    decreases s.len(),
{
    if s.len() > 0 && white_space(s.last()) {
        trim_end(s.drop_last())
    } else {
        s
    }
}

/// `s` without leading and trailing white space.
pub open spec fn trim(s: Seq<char>) -> Seq<char> {
    trim_end(trim_start(s))
}

/// `s` without the run of `c` that it ends in.
pub open spec fn trim_end_matches(s: Seq<char>, c: char) -> Seq<char>
    decreases s.len(),
{
    if s.len() > 0 && s.last() == c {
        trim_end_matches(s.drop_last(), c)
    } else {
        s
    }
}

/// `s` without the run of `c` that it starts with.
pub open spec fn trim_start_matches(s: Seq<char>, c: char) -> Seq<char>
    decreases s.len(),
{
    if s.len() > 0 && s[0] == c {
        trim_start_matches(s.drop_first(), c)
    } else {
        s
    }
}

/// `s` without the runs of `c` at its two ends.
pub open spec fn trim_matches(s: Seq<char>, c: char) -> Seq<char> {
    trim_end_matches(trim_start_matches(s, c), c)
}

/// `p` stands in `s` from position `at` on.
pub open spec fn occurs_at(s: Seq<char>, p: Seq<char>, at: int) -> bool {
    0 <= at && at + p.len() <= s.len() && s.subrange(at, at + p.len()) =~= p
}

pub open spec fn starts_with(s: Seq<char>, p: Seq<char>) -> bool {
    occurs_at(s, p, 0)
}

pub open spec fn ends_with(s: Seq<char>, p: Seq<char>) -> bool {
    occurs_at(s, p, s.len() - p.len())
}

/// `p` stands somewhere in `s`.
pub open spec fn contains(s: Seq<char>, p: Seq<char>) -> bool {
    exists|at: int| occurs_at(s, p, at)
}

/// What stands before and after the last `c` of `s`, if `c` occurs in it.
pub open spec fn rsplit_once(s: Seq<char>, c: char) -> Option<(Seq<char>, Seq<char>)>
    decreases s.len(),
{
    if s.len() == 0 {
        None
    } else if s.last() == c {
        Some((s.drop_last(), Seq::empty()))
    } else {
        match rsplit_once(s.drop_last(), c) {
            Some((before, after)) => Some((before, after.push(s.last()))),
            None => None,
        }
    }
}

/// The part of `s` before its first `c`, or all of it.
pub open spec fn before_first(s: Seq<char>, c: char) -> Seq<char>
    decreases s.len(),
{
    if s.len() == 0 || s[0] == c {
        Seq::empty()
    } else {
        seq![s[0]] + before_first(s.drop_first(), c)
    }
}

/// `line` without one trailing carriage return.
pub open spec fn strip_cr(line: Seq<char>) -> Seq<char> {
    if line.len() > 0 && line.last() == '\r' {
        line.drop_last()
    } else {
        line
    }
}

/// The lines of `s` that end in a line feed, without their line endings
/// (`"\n"` or `"\r\n"`).
pub open spec fn ended_lines(s: Seq<char>) -> Seq<Seq<char>>
    decreases s.len(),
{
    if s.len() == 0 {
        Seq::empty()
    } else if s.last() == '\n' {
        ended_lines(s.drop_last()).push(strip_cr(after_last_newline(s.drop_last())))
    } else {
        ended_lines(s.drop_last())
    }
}

/// The part of `s` after its last line feed.
pub open spec fn after_last_newline(s: Seq<char>) -> Seq<char>
    decreases s.len(),
{
    if s.len() == 0 || s.last() == '\n' {
        Seq::empty()
    } else {
        after_last_newline(s.drop_last()).push(s.last())
    }
}

/// The lines of `s`. The ending of the last line is optional.
pub open spec fn lines(s: Seq<char>) -> Seq<Seq<char>> {
    let rest = after_last_newline(s);
    if rest.len() == 0 {
        ended_lines(s)
    } else {
        ended_lines(s).push(rest)
    }
}

/// The digit `n`, for `n` below ten.
pub open spec fn digit(n: nat) -> char {
    (48 + n) as char
}

/// `n` in decimal notation.
pub open spec fn decimal(n: nat) -> Seq<char>
    decreases n,
{
    if n < 10 {
        seq![digit(n)]
    } else {
        decimal(n / 10).push(digit(n % 10))
    }
}

/// The texts of `parts`, one after the other, with `sep` between two of them.
pub open spec fn join(parts: Seq<Seq<char>>, sep: Seq<char>) -> Seq<char>
    decreases parts.len(),
{
    if parts.len() == 0 {
        Seq::empty()
    } else if parts.len() == 1 {
        parts[0]
    } else {
        join(parts.drop_last(), sep) + sep + parts.last()
    }
}

/// Trimming `c` off the end leaves a beginning that does not end in `c`.
pub proof fn lemma_trim_end_matches(s: Seq<char>, c: char)
    ensures
        trim_end_matches(s, c).len() <= s.len(),
        trim_end_matches(s, c) == s.take(trim_end_matches(s, c).len() as int),
        trim_end_matches(s, c).len() > 0 ==> trim_end_matches(s, c).last() != c,
    decreases s.len(),
{
    if s.len() > 0 && s.last() == c {
        lemma_trim_end_matches(s.drop_last(), c);
        let n = trim_end_matches(s, c).len() as int;
        assert(s.drop_last().take(n) == s.take(n));
    } else {
        assert(s.take(s.len() as int) == s);
    }
}

/// Trimming `c` off the start leaves an ending that does not start with `c`.
pub proof fn lemma_trim_start_matches(s: Seq<char>, c: char)
    ensures
        trim_start_matches(s, c).len() <= s.len(),
        trim_start_matches(s, c) == s.skip(s.len() - trim_start_matches(s, c).len()),
        trim_start_matches(s, c).len() > 0 ==> trim_start_matches(s, c)[0] != c,
    decreases s.len(),
{
    if s.len() > 0 && s[0] == c {
        lemma_trim_start_matches(s.drop_first(), c);
        let n = trim_start_matches(s, c).len();
        assert(s.drop_first().skip(s.len() - 1 - n) == s.skip(s.len() - n));
    } else {
        assert(s.skip(0) == s);
    }
}

/// What is trimmed has no white space at its ends.
pub proof fn lemma_trim(s: Seq<char>)
    ensures
        trim(s).len() > 0 ==> !white_space(trim(s)[0]) && !white_space(trim(s).last()),
{
    lemma_trim_start(s);
    lemma_trim_end(trim_start(s));
}

proof fn lemma_trim_start(s: Seq<char>)
    ensures
        trim_start(s).len() > 0 ==> !white_space(trim_start(s)[0]),
    decreases s.len(),
{
    if s.len() > 0 && white_space(s[0]) {
        lemma_trim_start(s.drop_first());
    }
}

proof fn lemma_trim_end(s: Seq<char>)
    ensures
        trim_end(s).len() <= s.len(),
        trim_end(s) == s.take(trim_end(s).len() as int),
        trim_end(s).len() > 0 ==> !white_space(trim_end(s).last()),
    decreases s.len(),
{
    if s.len() > 0 && white_space(s.last()) {
        lemma_trim_end(s.drop_last());
        let n = trim_end(s).len() as int;
        assert(s.drop_last().take(n) == s.take(n));
    } else {
        assert(s.take(s.len() as int) == s);
    }
}

/// Without white space at an end, there is nothing to trim.
pub proof fn lemma_nothing_to_trim(s: Seq<char>)
    requires
        s.len() > 0 ==> !white_space(s[0]) && !white_space(s.last()),
    ensures
        trim(s) == s,
{
}

/// A character that does not occur does not split.
pub proof fn lemma_rsplit_absent(s: Seq<char>, c: char)
    requires
        !s.contains(c),
    ensures
        rsplit_once(s, c) is None,
    decreases s.len(),
{
    if s.len() > 0 {
        assert(s[s.len() - 1] == s.last());
        assert forall|i: int| 0 <= i < s.len() - 1 implies s.drop_last()[i] != c by {
            assert(s[i] != c);
        }
        lemma_rsplit_absent(s.drop_last(), c);
    }
}

/// Before a character that does not occur stands all of a text.
pub proof fn lemma_before_absent(s: Seq<char>, c: char)
    requires
        !s.contains(c),
    ensures
        before_first(s, c) == s,
    decreases s.len(),
{
    if s.len() > 0 {
        assert(s[0] != c);
        assert forall|i: int| 0 <= i < s.len() - 1 implies s.drop_first()[i] != c by {
            assert(s[i + 1] != c);
        }
        lemma_before_absent(s.drop_first(), c);
        assert(seq![s[0]] + s.drop_first() == s);
    }
}

/// The last `c` splits a text.
pub proof fn lemma_rsplit_last(before: Seq<char>, c: char, after: Seq<char>)
    requires
        !after.contains(c),
    ensures
        rsplit_once(before.push(c) + after, c) == Some((before, after)),
    decreases after.len(),
{
    let s = before.push(c) + after;
    if after.len() == 0 {
        assert(s == before.push(c));
        assert(before.push(c).drop_last() == before);
        assert(after == Seq::<char>::empty());
    } else {
        let rest = after.drop_last();
        assert(after[after.len() - 1] == after.last());
        assert forall|i: int| 0 <= i < rest.len() implies rest[i] != c by {
            assert(after[i] != c);
        }
        lemma_rsplit_last(before, c, rest);
        assert(s.drop_last() == before.push(c) + rest);
        assert(s.last() == after.last());
        assert(rest.push(after.last()) == after);
    }
}

/// White space is tabs, line ends, blanks and the other spaces of Unicode, and
/// nothing else.
pub proof fn law_white_space_is_that_of_unicode(c: char)
    ensures
        white_space(c) <==> seq![
            '\t',
            '\n',
            '\u{b}',
            '\u{c}',
            '\r',
            ' ',
            '\u{85}',
            '\u{a0}',
            '\u{1680}',
            '\u{2000}',
            '\u{2001}',
            '\u{2002}',
            '\u{2003}',
            '\u{2004}',
            '\u{2005}',
            '\u{2006}',
            '\u{2007}',
            '\u{2008}',
            '\u{2009}',
            '\u{200a}',
            '\u{2028}',
            '\u{2029}',
            '\u{202f}',
            '\u{205f}',
            '\u{3000}',
        ].contains(c),
{
    let spaces = seq![
        '\t',
        '\n',
        '\u{b}',
        '\u{c}',
        '\r',
        ' ',
        '\u{85}',
        '\u{a0}',
        '\u{1680}',
        '\u{2000}',
        '\u{2001}',
        '\u{2002}',
        '\u{2003}',
        '\u{2004}',
        '\u{2005}',
        '\u{2006}',
        '\u{2007}',
        '\u{2008}',
        '\u{2009}',
        '\u{200a}',
        '\u{2028}',
        '\u{2029}',
        '\u{202f}',
        '\u{205f}',
        '\u{3000}',
    ];
    if white_space(c) {
        let code = c as u32;
        let i: int = if code <= 0xd {
            code - 9
        } else if code == 0x20 {
            5
        } else if code == 0x85 {
            6
        } else if code == 0xa0 {
            7
        } else if code == 0x1680 {
            8
        } else if code <= 0x200a {
            9 + code - 0x2000
        } else if code == 0x2028 {
            20
        } else if code == 0x2029 {
            21
        } else if code == 0x202f {
            22
        } else if code == 0x205f {
            23
        } else {
            24
        };
        assert(spaces[i] == c);
    }
}

/// Every character of `s` is white space.
pub open spec fn blank(s: Seq<char>) -> bool {
    forall|i: int| 0 <= i < s.len() ==> white_space(#[trigger] s[i])
}

/// Trimming takes off the white space before and after a text, all of it, and
/// leaves the text as it is.
pub proof fn law_trimming_leaves_what_space_surrounds(
    before: Seq<char>,
    text: Seq<char>,
    after: Seq<char>,
)
    requires
        blank(before),
        blank(after),
        text.len() > 0 ==> !white_space(text[0]) && !white_space(text.last()),
    ensures
        trim(before + text + after) == text,
    decreases before.len(),
{
    let s = before + text + after;
    if before.len() > 0 {
        assert(s[0] == before[0]);
        let rest = before.drop_first();
        assert forall|i: int| 0 <= i < rest.len() implies white_space(#[trigger] rest[i]) by {
            assert(rest[i] == before[i + 1]);
        }
        assert(s.drop_first() == rest + text + after);
        law_trimming_leaves_what_space_surrounds(rest, text, after);
    } else {
        assert(s == text + after);
        if text.len() > 0 {
            assert(s[0] == text[0]);
            lemma_trim_end_leaves(text, after);
        } else {
            assert(s == after);
            lemma_trim_start_of_blank(after);
            assert(text == Seq::<char>::empty());
        }
    }
}

proof fn lemma_trim_end_leaves(text: Seq<char>, after: Seq<char>)
    requires
        blank(after),
        text.len() > 0,
        !white_space(text.last()),
    ensures
        trim_end(text + after) == text,
    decreases after.len(),
{
    let s = text + after;
    if after.len() > 0 {
        assert(s.last() == after[after.len() - 1]);
        assert(s.drop_last() == text + after.drop_last());
        lemma_trim_end_leaves(text, after.drop_last());
    } else {
        assert(s == text);
    }
}

proof fn lemma_trim_start_of_blank(s: Seq<char>)
    requires
        blank(s),
    ensures
        trim_start(s) == Seq::<char>::empty(),
    decreases s.len(),
{
    if s.len() > 0 {
        assert(white_space(s[0]));
        let rest = s.drop_first();
        assert forall|i: int| 0 <= i < rest.len() implies white_space(#[trigger] rest[i]) by {
            assert(rest[i] == s[i + 1]);
        }
        lemma_trim_start_of_blank(rest);
    } else {
        assert(s == Seq::<char>::empty());
    }
}

/// Nothing is left exactly of what is blank.
pub proof fn lemma_blank_is_trimmed_away(s: Seq<char>)
    ensures
        blank(s) <==> trim(s).len() == 0,
{
    law_a_text_is_what_is_left_between_space(s);
    let (before, after) = choose|before: Seq<char>, after: Seq<char>|
        #![trigger before + trim(s) + after]
        blank(before) && blank(after) && s == before + trim(s) + after;
    if trim(s).len() == 0 {
        assert forall|i: int| 0 <= i < s.len() implies white_space(#[trigger] s[i]) by {
            if i < before.len() {
                assert(s[i] == before[i]);
            } else {
                assert(s[i] == after[i - before.len()]);
            }
        }
    } else {
        assert(s[before.len() as int] == trim(s)[0]);
    }
}

/// Every text is what is left of it between white space.
pub proof fn law_a_text_is_what_is_left_between_space(s: Seq<char>)
    ensures
        exists|before: Seq<char>, after: Seq<char>|
            #![trigger before + trim(s) + after]
            blank(before) && blank(after) && s == before + trim(s) + after,
        trim(s).len() > 0 ==> !white_space(trim(s)[0]) && !white_space(trim(s).last()),
{
    lemma_trim(s);
    lemma_trim_start(s);
    let start = trim_start(s);
    lemma_trim_start_parts(s);
    lemma_trim_end_parts(start);
    let before = s.take(s.len() - start.len());
    let after = start.skip(trim(s).len() as int);
    assert(s =~= before + trim(s) + after) by {
        assert(start =~= trim(s) + after);
        assert(s =~= before + start);
    }
}

proof fn lemma_trim_start_parts(s: Seq<char>)
    ensures
        trim_start(s).len() <= s.len(),
        trim_start(s) == s.skip(s.len() - trim_start(s).len()),
        blank(s.take(s.len() - trim_start(s).len())),
    decreases s.len(),
{
    if s.len() > 0 && white_space(s[0]) {
        let rest = s.drop_first();
        lemma_trim_start_parts(rest);
        let n = trim_start(s).len();
        assert(rest.skip(rest.len() - n) == s.skip(s.len() - n));
        let head = s.take(s.len() - n);
        assert forall|i: int| 0 <= i < head.len() implies white_space(#[trigger] head[i]) by {
            if i > 0 {
                assert(head[i] == rest.take(rest.len() - n)[i - 1]);
            }
        }
    } else {
        assert(s.skip(0) == s);
    }
}

proof fn lemma_trim_end_parts(s: Seq<char>)
    ensures
        trim_end(s).len() <= s.len(),
        trim_end(s) == s.take(trim_end(s).len() as int),
        blank(s.skip(trim_end(s).len() as int)),
    decreases s.len(),
{
    lemma_trim_end(s);
    if s.len() > 0 && white_space(s.last()) {
        let rest = s.drop_last();
        lemma_trim_end_parts(rest);
        let n = trim_end(s).len() as int;
        let tail = s.skip(n);
        assert forall|i: int| 0 <= i < tail.len() implies white_space(#[trigger] tail[i]) by {
            if i < tail.len() - 1 {
                assert(tail[i] == rest.skip(n)[i]);
            } else {
                assert(tail[i] == s.last());
            }
        }
    }
}

/// A text starts with another where the other, and then something, makes it up.
pub proof fn law_prefixes_come_first(p: Seq<char>, rest: Seq<char>)
    ensures
        starts_with(p + rest, p),
{
    assert((p + rest).subrange(0, p.len() as int) =~= p);
}

/// What a text starts with is followed by the rest of it.
pub proof fn law_a_prefix_leaves_a_rest(s: Seq<char>, p: Seq<char>)
    requires
        starts_with(s, p),
    ensures
        exists|rest: Seq<char>| s == #[trigger] (p + rest),
{
    let rest = s.skip(p.len() as int);
    assert(s =~= p + rest) by {
        assert forall|i: int| 0 <= i < p.len() implies s[i] == p[i] by {
            assert(s.subrange(0, p.len() as int)[i] == p[i]);
        }
    }
}

/// A text ends with another where something, and then the other, makes it up.
pub proof fn law_suffixes_come_last(rest: Seq<char>, p: Seq<char>)
    ensures
        ends_with(rest + p, p),
{
    assert((rest + p).subrange(rest.len() as int, (rest + p).len() as int) =~= p);
}

/// What a text ends with is led by the rest of it.
pub proof fn law_a_suffix_leaves_a_rest(s: Seq<char>, p: Seq<char>)
    requires
        ends_with(s, p),
    ensures
        exists|rest: Seq<char>| s == #[trigger] (rest + p),
{
    let from = s.len() - p.len();
    let rest = s.take(from);
    assert(s =~= rest + p) by {
        assert forall|i: int| 0 <= i < p.len() implies s[from + i] == p[i] by {
            assert(s.subrange(from, from + p.len())[i] == p[i]);
        }
    }
}

/// A text holds what stands between two parts of it.
pub proof fn law_what_stands_inside_is_held(before: Seq<char>, p: Seq<char>, after: Seq<char>)
    ensures
        contains(before + p + after, p),
{
    let s = before + p + after;
    let at = before.len() as int;
    assert(s.subrange(at, at + p.len()) =~= p);
    assert(occurs_at(s, p, at));
}

/// What a text holds stands between two parts of it.
pub proof fn law_what_is_held_stands_inside(s: Seq<char>, p: Seq<char>)
    requires
        contains(s, p),
    ensures
        exists|before: Seq<char>, after: Seq<char>| s == #[trigger] (before + p + after),
{
    let at = choose|at: int| occurs_at(s, p, at);
    let before = s.take(at);
    let after = s.skip(at + p.len());
    assert(s =~= before + p + after) by {
        assert forall|i: int| 0 <= i < p.len() implies s[at + i] == p[i] by {
            assert(s.subrange(at, at + p.len())[i] == p[i]);
        }
    }
}

/// One character is held where it stands anywhere.
pub proof fn law_a_character_is_held_where_it_stands(s: Seq<char>, c: char)
    ensures
        contains(s, seq![c]) <==> s.contains(c),
{
    if contains(s, seq![c]) {
        let at = choose|at: int| occurs_at(s, seq![c], at);
        assert(s.subrange(at, at + 1)[0] == c);
        assert(s[at] == c);
    }
    if s.contains(c) {
        let at = choose|at: int| 0 <= at < s.len() && s[at] == c;
        assert(s.subrange(at, at + 1) =~= seq![c]);
        assert(occurs_at(s, seq![c], at));
    }
}

/// Trimming a character off the end takes off the whole run of it, and nothing
/// else.
pub proof fn law_a_run_at_the_end_is_taken_off(text: Seq<char>, c: char, n: nat)
    requires
        text.len() > 0 ==> text.last() != c,
    ensures
        trim_end_matches(text + Seq::new(n, |i: int| c), c) == text,
    decreases n,
{
    let s = text + Seq::new(n, |i: int| c);
    if n > 0 {
        assert(s.drop_last() == text + Seq::new((n - 1) as nat, |i: int| c));
        law_a_run_at_the_end_is_taken_off(text, c, (n - 1) as nat);
    } else {
        assert(s == text);
    }
}

/// Trimming a character off the start takes off the whole run of it, and nothing
/// else.
pub proof fn law_a_run_at_the_start_is_taken_off(text: Seq<char>, c: char, n: nat)
    requires
        text.len() > 0 ==> text[0] != c,
    ensures
        trim_start_matches(Seq::new(n, |i: int| c) + text, c) == text,
    decreases n,
{
    let s = Seq::new(n, |i: int| c) + text;
    if n > 0 {
        assert(s.drop_first() == Seq::new((n - 1) as nat, |i: int| c) + text);
        law_a_run_at_the_start_is_taken_off(text, c, (n - 1) as nat);
    } else {
        assert(s == text);
    }
}

/// Before the first occurrence of a character stands what leads up to it.
pub proof fn law_a_text_is_cut_at_the_first(before: Seq<char>, c: char, after: Seq<char>)
    requires
        !before.contains(c),
    ensures
        before_first(before.push(c) + after, c) == before,
    decreases before.len(),
{
    let s = before.push(c) + after;
    if before.len() > 0 {
        assert(s[0] == before[0]);
        assert(before.contains(before[0]));
        let rest = before.drop_first();
        assert(!rest.contains(c)) by {
            if rest.contains(c) {
                let i = choose|i: int| 0 <= i < rest.len() && rest[i] == c;
                assert(before[i + 1] == c);
            }
        }
        assert(s.drop_first() == rest.push(c) + after);
        law_a_text_is_cut_at_the_first(rest, c, after);
        assert(seq![before[0]] + rest =~= before);
    } else {
        assert(s[0] == c);
        assert(before == Seq::<char>::empty());
    }
}

/// The ASCII letters in their two forms.
pub open spec fn upper_letters() -> Seq<char> {
    "ABCDEFGHIJKLMNOPQRSTUVWXYZ"@
}

pub open spec fn lower_letters() -> Seq<char> {
    "abcdefghijklmnopqrstuvwxyz"@
}

/// An ASCII upper-case letter becomes the lower-case letter of the same place in
/// the alphabet. Any other character stays as it is.
pub proof fn law_letters_become_lower_case(i: int, c: char)
    ensures
        0 <= i < 26 ==> ascii_lower(upper_letters()[i]) == lower_letters()[i],
        !upper_letters().contains(c) ==> ascii_lower(c) == c,
{
    reveal_strlit("ABCDEFGHIJKLMNOPQRSTUVWXYZ");
    reveal_strlit("abcdefghijklmnopqrstuvwxyz");
    if 'A' <= c <= 'Z' {
        assert(upper_letters()[c as u32 - 65] == c);
    }
}

/// The letters and digits of ASCII.
pub proof fn law_alphanumerics_are_letters_and_digits(c: char)
    ensures
        ascii_alphanumeric(c) <==> upper_letters().contains(c) || lower_letters().contains(c)
            || "0123456789"@.contains(c),
{
    reveal_strlit("ABCDEFGHIJKLMNOPQRSTUVWXYZ");
    reveal_strlit("abcdefghijklmnopqrstuvwxyz");
    reveal_strlit("0123456789");
    if 'A' <= c <= 'Z' {
        assert(upper_letters()[c as u32 - 65] == c);
    } else if 'a' <= c <= 'z' {
        assert(lower_letters()[c as u32 - 97] == c);
    } else if '0' <= c <= '9' {
        assert("0123456789"@[c as u32 - 48] == c);
    }
}

/// A line that ends in a line feed comes first, without that line feed and a
/// carriage return before it, and the lines of what follows come after it.
pub proof fn law_a_line_feed_ends_a_line(line: Seq<char>, rest: Seq<char>)
    requires
        !line.contains('\n'),
    ensures
        line.len() == 0 || line.last() != '\r' ==> lines(line.push('\n') + rest) == seq![line]
            + lines(rest),
        lines(line.push('\r').push('\n') + rest) == seq![line] + lines(rest),
{
    lemma_first_line(line, rest);
    let returned = line.push('\r');
    assert(!returned.contains('\n')) by {
        if returned.contains('\n') {
            let i = choose|i: int| 0 <= i < returned.len() && returned[i] == '\n';
            assert(line[i] == '\n');
        }
    }
    lemma_first_line(returned, rest);
    assert(returned.drop_last() == line);
}

/// A text without a line feed is one line, or none where it is empty.
pub proof fn law_a_text_without_line_feed_is_one_line(text: Seq<char>)
    requires
        !text.contains('\n'),
    ensures
        lines(text) == if text.len() == 0 {
            Seq::<Seq<char>>::empty()
        } else {
            seq![text]
        },
{
    lemma_no_line_feed(text);
    assert(Seq::<Seq<char>>::empty().push(text) =~= seq![text]);
}

proof fn lemma_no_line_feed(text: Seq<char>)
    requires
        !text.contains('\n'),
    ensures
        ended_lines(text) == Seq::<Seq<char>>::empty(),
        after_last_newline(text) == text,
    decreases text.len(),
{
    if text.len() > 0 {
        let head = text.drop_last();
        assert(text.contains(text[text.len() - 1]));
        assert(!head.contains('\n')) by {
            if head.contains('\n') {
                let i = choose|i: int| 0 <= i < head.len() && head[i] == '\n';
                assert(text[i] == '\n');
            }
        }
        lemma_no_line_feed(head);
        assert(head.push(text.last()) =~= text);
    } else {
        assert(text =~= Seq::<char>::empty());
    }
}

proof fn lemma_first_line(line: Seq<char>, rest: Seq<char>)
    requires
        !line.contains('\n'),
    ensures
        lines(line.push('\n') + rest) == seq![strip_cr(line)] + lines(rest),
{
    lemma_first_line_parts(line, rest);
    let s = line.push('\n') + rest;
    if after_last_newline(rest).len() > 0 {
        assert((seq![strip_cr(line)] + ended_lines(rest)).push(after_last_newline(rest)) =~= seq![
            strip_cr(line),
        ] + ended_lines(rest).push(after_last_newline(rest)));
    }
}

proof fn lemma_first_line_parts(line: Seq<char>, rest: Seq<char>)
    requires
        !line.contains('\n'),
    ensures
        ended_lines(line.push('\n') + rest) == seq![strip_cr(line)] + ended_lines(rest),
        after_last_newline(line.push('\n') + rest) == after_last_newline(rest),
    decreases rest.len(),
{
    let s = line.push('\n') + rest;
    if rest.len() == 0 {
        assert(s =~= line.push('\n'));
        assert(s.drop_last() =~= line);
        lemma_no_line_feed(line);
        assert(ended_lines(s) =~= seq![strip_cr(line)] + ended_lines(rest));
    } else {
        lemma_first_line_parts(line, rest.drop_last());
        assert(s.drop_last() =~= line.push('\n') + rest.drop_last());
        assert(s.last() == rest.last());
        if rest.last() == '\n' {
            let last = strip_cr(after_last_newline(rest.drop_last()));
            assert((seq![strip_cr(line)] + ended_lines(rest.drop_last())).push(last) =~= seq![
                strip_cr(line),
            ] + ended_lines(rest.drop_last()).push(last));
        }
    }
}

/// Joining puts the separator between a text and the texts that follow it.
pub proof fn law_joining_separates(first: Seq<char>, rest: Seq<Seq<char>>, sep: Seq<char>)
    ensures
        join(seq![first] + rest, sep) == if rest.len() == 0 {
            first
        } else {
            first + sep + join(rest, sep)
        },
    decreases rest.len(),
{
    let parts = seq![first] + rest;
    if rest.len() == 0 {
        assert(parts.len() == 1 && parts[0] == first);
    } else {
        assert(parts.drop_last() =~= seq![first] + rest.drop_last());
        assert(parts.last() == rest.last());
        law_joining_separates(first, rest.drop_last(), sep);
        if rest.len() == 1 {
            assert(join(rest, sep) == rest[0]);
        } else {
            assert(first + sep + join(rest.drop_last(), sep) + sep + rest.last() =~= first + sep + (
            join(rest.drop_last(), sep) + sep + rest.last()));
        }
    }
}

/// The number that decimal digits write.
pub open spec fn number_written(digits: Seq<char>) -> int
    decreases digits.len(),
{
    if digits.len() == 0 {
        0
    } else {
        number_written(digits.drop_last()) * 10 + (digits.last() as int - '0' as int)
    }
}

/// Decimal notation writes the number in digits, without zeros before it.
pub proof fn law_decimal_writes_the_number(n: nat)
    ensures
        number_written(decimal(n)) == n,
        forall|i: int|
            0 <= i < decimal(n).len() ==> '0' <= #[trigger] decimal(n)[i] && decimal(n)[i] <= '9',
        decimal(n).len() > 0,
        n > 0 ==> decimal(n)[0] != '0',
        n == 0 ==> decimal(n).len() == 1,
    decreases n,
{
    if n < 10 {
        assert(seq![digit(n)].drop_last() =~= Seq::<char>::empty());
        assert(number_written(Seq::<char>::empty()) == 0);
    } else {
        law_decimal_writes_the_number(n / 10);
        let head = decimal(n / 10);
        assert(decimal(n) == head.push(digit(n % 10)));
        assert(decimal(n).drop_last() =~= head);
        assert(decimal(n)[0] == head[0]);
    }
}

/// The characters of `s`.
pub fn chars_of(s: &str) -> (r: Vec<char>)
    ensures
        r@ == s@,
{
    let mut v: Vec<char> = Vec::new();
    for c in it: s.chars()
        invariant
            v@ == it.seq().take(it.index() as int),
            it.seq() == s@,
    {
        v.push(c);
    }
    assert(s@.take(s@.len() as int) == s@);
    v
}

/// The string of the characters `v[from..to]`.
pub fn string_of(v: &[char], from: usize, to: usize) -> (r: String)
    requires
        from <= to <= v@.len(),
    ensures
        r@ == v@.subrange(from as int, to as int),
{
    let mut s = String::new();
    let mut i: usize = from;
    while i < to
        invariant
            from <= i <= to <= v@.len(),
            s@ == v@.subrange(from as int, i as int),
        decreases to - i,
    {
        s.push(v[i]);
        i = i + 1;
    }
    s
}

pub fn is_white_space(c: char) -> (r: bool)
    ensures
        r == white_space(c),
{
    let code = c as u32;
    0x9 <= code && code <= 0xd || code == 0x20 || code == 0x85 || code == 0xa0 || code == 0x1680
        || 0x2000 <= code && code <= 0x200a || code == 0x2028 || code == 0x2029 || code == 0x202f
        || code == 0x205f || code == 0x3000
}

pub fn is_ascii_alphanumeric(c: char) -> (r: bool)
    ensures
        r == ascii_alphanumeric(c),
{
    '0' <= c && c <= '9' || 'a' <= c && c <= 'z' || 'A' <= c && c <= 'Z'
}

/// `s` without leading and trailing white space.
pub fn trimmed(s: &str) -> (r: String)
    ensures
        r@ == trim(s@),
{
    let v = chars_of(s);
    let n = v.len();
    let mut lo: usize = 0;
    assert(v@.subrange(0, n as int) == v@);
    while lo < n && is_white_space(v[lo])
        invariant
            lo <= n == v@.len(),
            trim_start(v@) == trim_start(v@.subrange(lo as int, n as int)),
        decreases n - lo,
    {
        let ghost rest = v@.subrange(lo as int, n as int);
        assert(rest.drop_first() == v@.subrange(lo + 1, n as int));
        lo = lo + 1;
    }
    let mut hi: usize = n;
    while lo < hi && is_white_space(v[hi - 1])
        invariant
            lo <= hi <= n == v@.len(),
            trim_end(v@.subrange(lo as int, n as int)) == trim_end(
                v@.subrange(lo as int, hi as int),
            ),
        decreases hi - lo,
    {
        let ghost rest = v@.subrange(lo as int, hi as int);
        assert(rest.drop_last() == v@.subrange(lo as int, hi - 1));
        hi = hi - 1;
    }
    string_of(v.as_slice(), lo, hi)
}

/// `s` without the run of `c` that it ends in.
pub fn trimmed_end_matches(s: &str, c: char) -> (r: String)
    ensures
        r@ == trim_end_matches(s@, c),
{
    let v = chars_of(s);
    let mut hi: usize = v.len();
    assert(v@.subrange(0, hi as int) == v@);
    while 0 < hi && v[hi - 1] == c
        invariant
            hi <= v@.len(),
            trim_end_matches(v@, c) == trim_end_matches(v@.subrange(0, hi as int), c),
        decreases hi,
    {
        assert(v@.subrange(0, hi as int).drop_last() == v@.subrange(0, hi - 1));
        hi = hi - 1;
    }
    string_of(v.as_slice(), 0, hi)
}

/// `s` without the runs of `c` at its two ends.
pub fn trimmed_matches(s: &str, c: char) -> (r: String)
    ensures
        r@ == trim_matches(s@, c),
{
    let v = chars_of(s);
    let n = v.len();
    let mut lo: usize = 0;
    assert(v@.subrange(0, n as int) == v@);
    while lo < n && v[lo] == c
        invariant
            lo <= n == v@.len(),
            trim_start_matches(v@, c) == trim_start_matches(
                v@.subrange(lo as int, n as int),
                c,
            ),
        decreases n - lo,
    {
        assert(v@.subrange(lo as int, n as int).drop_first() == v@.subrange(lo + 1, n as int));
        lo = lo + 1;
    }
    let start = string_of(v.as_slice(), lo, n);
    trimmed_end_matches(start.as_str(), c)
}

/// Whether `p` stands in `s` from position `at` on.
fn stands_at(s: &[char], p: &[char], at: usize) -> (r: bool)
    ensures
        r == occurs_at(s@, p@, at as int),
{
    if at > s.len() || p.len() > s.len() - at {
        return false;
    }
    let mut i: usize = 0;
    while i < p.len()
        invariant
            i <= p@.len(),
            at + p@.len() <= s.len(),
            s@.subrange(at as int, at + i) == p@.subrange(0, i as int),
        decreases p.len() - i,
    {
        if s[at + i] != p[i] {
            assert(s@.subrange(at as int, at + p@.len())[i as int] != p@[i as int]);
            return false;
        }
        i = i + 1;
        assert(s@.subrange(at as int, at + i) == p@.subrange(0, i as int)) by {
            assert(s@.subrange(at as int, at + i).drop_last() == s@.subrange(at as int, at + i - 1));
            assert(p@.subrange(0, i as int).drop_last() == p@.subrange(0, i - 1));
            assert(s@.subrange(at as int, at + i) == s@.subrange(at as int, at + i - 1).push(
                s@[at + i - 1],
            ));
            assert(p@.subrange(0, i as int) == p@.subrange(0, i - 1).push(p@[i - 1]));
        }
    }
    assert(p@.subrange(0, i as int) == p@);
    true
}

pub fn has_prefix(s: &str, p: &str) -> (r: bool)
    ensures
        r == starts_with(s@, p@),
{
    stands_at(chars_of(s).as_slice(), chars_of(p).as_slice(), 0)
}

pub fn has_suffix(s: &str, p: &str) -> (r: bool)
    ensures
        r == ends_with(s@, p@),
{
    let v = chars_of(s);
    let w = chars_of(p);
    w.len() <= v.len() && stands_at(v.as_slice(), w.as_slice(), v.len() - w.len())
}

/// Whether `p` stands somewhere in `s`.
pub fn has_text(s: &str, p: &str) -> (r: bool)
    ensures
        r == contains(s@, p@),
{
    let v = chars_of(s);
    let w = chars_of(p);
    let mut at: usize = 0;
    while at < v.len()
        invariant
            at <= v@.len(),
            v@ == s@,
            w@ == p@,
            forall|i: int| 0 <= i < at ==> !occurs_at(v@, w@, i),
        decreases v.len() - at,
    {
        if stands_at(v.as_slice(), w.as_slice(), at) {
            return true;
        }
        at = at + 1;
    }
    stands_at(v.as_slice(), w.as_slice(), at)
}

/// Whether the two texts are the same.
pub fn same_text(a: &str, b: &str) -> (r: bool)
    ensures
        r == (a@ == b@),
{
    let v = chars_of(a);
    let w = chars_of(b);
    proof {
        if v@.len() == w@.len() {
            assert(v@.subrange(0, v@.len() as int) == v@);
        }
    }
    v.len() == w.len() && stands_at(v.as_slice(), w.as_slice(), 0)
}

/// Whether the two optional texts are the same.
pub fn same_optional_text(a: Option<&str>, b: Option<&str>) -> (r: bool)
    ensures
        r == (a.deep_view() == b.deep_view()),
{
    match (a, b) {
        (Some(x), Some(y)) => same_text(x, y),
        (None, None) => true,
        _ => false,
    }
}

/// What stands before and after the last `c` of `s`, if `c` occurs in it.
pub fn split_last(s: &str, c: char) -> (r: Option<(String, String)>)
    ensures
        r.deep_view() == rsplit_once(s@, c),
{
    let v = chars_of(s);
    let n = v.len();
    let mut i: usize = n;
    assert(v@.subrange(0, n as int) == v@);
    while 0 < i
        invariant
            i <= n == v@.len(),
            v@ == s@,
            rsplit_once(v@, c) == match rsplit_once(v@.subrange(0, i as int), c) {
                Some((before, after)) => Some((before, after + v@.subrange(i as int, n as int))),
                None => None,
            },
        decreases i,
    {
        let ghost head = v@.subrange(0, i as int);
        assert(head.drop_last() == v@.subrange(0, i - 1));
        if v[i - 1] == c {
            let before = string_of(v.as_slice(), 0, i - 1);
            let after = string_of(v.as_slice(), i, n);
            assert(Seq::<char>::empty() + v@.subrange(i as int, n as int) == v@.subrange(
                i as int,
                n as int,
            ));
            return Some((before, after));
        }
        assert forall|after: Seq<char>| #[trigger]
            after.push(head.last()) + v@.subrange(i as int, n as int) == after + v@.subrange(
                i - 1,
                n as int,
            ) by {
            assert(after.push(head.last()) + v@.subrange(i as int, n as int) =~= after
                + v@.subrange(i - 1, n as int));
        }
        i = i - 1;
    }
    None
}

/// The part of `s` before its first `c`, or all of it.
pub fn text_before(s: &str, c: char) -> (r: String)
    ensures
        r@ == before_first(s@, c),
{
    let v = chars_of(s);
    let n = v.len();
    let mut i: usize = 0;
    assert(v@.subrange(0, n as int) == v@);
    while i < n && v[i] != c
        invariant
            i <= n == v@.len(),
            before_first(v@, c) =~= v@.subrange(0, i as int) + before_first(
                v@.subrange(i as int, n as int),
                c,
            ),
        decreases n - i,
    {
        assert(v@.subrange(i as int, n as int).drop_first() == v@.subrange(i + 1, n as int));
        i = i + 1;
    }
    string_of(v.as_slice(), 0, i)
}

/// `s` with its ASCII upper-case letters made lower-case.
pub fn ascii_lowercase(s: &str) -> (r: String)
    ensures
        r@ == s@.map_values(|c: char| ascii_lower(c)),
{
    let v = chars_of(s);
    let mut out = String::new();
    let mut i: usize = 0;
    while i < v.len()
        invariant
            i <= v@.len(),
            out@ == v@.subrange(0, i as int).map_values(|c: char| ascii_lower(c)),
        decreases v.len() - i,
    {
        let c = v[i];
        if 'A' <= c && c <= 'Z' {
            out.push(lower_letter(c));
        } else {
            out.push(c);
        }
        i = i + 1;
    }
    assert(v@.subrange(0, i as int) == v@);
    out
}

/// The lower-case form of an ASCII upper-case letter.
fn lower_letter(c: char) -> (r: char)
    requires
        'A' <= c <= 'Z',
    ensures
        r == ascii_lower(c),
{
    let code = c as u8 + 32;
    code as char
}

/// The lines of `s`.
pub fn lines_of(s: &str) -> (r: Vec<String>)
    ensures
        r.deep_view() == lines(s@),
{
    let v = chars_of(s);
    let n = v.len();
    let mut out: Vec<String> = Vec::new();
    let mut start: usize = 0;
    let mut i: usize = 0;
    assert(out.deep_view() == Seq::<Seq<char>>::empty());
    while i < n
        invariant
            start <= i <= n == v@.len(),
            out.deep_view() == ended_lines(v@.subrange(0, i as int)),
            v@.subrange(start as int, i as int) == after_last_newline(v@.subrange(0, i as int)),
        decreases n - i,
    {
        let ghost done = v@.subrange(0, i as int);
        let ghost next = v@.subrange(0, i + 1);
        assert(next.drop_last() == done);
        let ghost before = out.deep_view();
        if v[i] == '\n' {
            let end = if start < i && v[i - 1] == '\r' {
                i - 1
            } else {
                i
            };
            let line = string_of(v.as_slice(), start, end);
            assert(line@ == strip_cr(after_last_newline(done)));
            out.push(line);
            assert(out.deep_view() == before.push(line@));
            start = i + 1;
        } else {
            assert(v@.subrange(start as int, i + 1) == v@.subrange(start as int, i as int).push(
                v@[i as int],
            ));
        }
        i = i + 1;
    }
    assert(v@.subrange(0, n as int) == v@);
    if start < n {
        let ghost before = out.deep_view();
        let line = string_of(v.as_slice(), start, n);
        out.push(line);
        assert(out.deep_view() == before.push(line@));
    }
    out
}

/// `n` in decimal notation.
pub fn decimal_of(n: u64) -> (r: String)
    ensures
        r@ == decimal(n as nat),
    decreases n,
{
    let mut s = if n < 10 {
        String::new()
    } else {
        decimal_of(n / 10)
    };
    s.push(digit_of(n % 10));
    s
}

/// The digit `n`.
fn digit_of(n: u64) -> (r: char)
    requires
        n < 10,
    ensures
        r == digit(n as nat),
{
    let code = 48 + n as u8;
    code as char
}

/// The texts of `parts`, one after the other, with `sep` between two of them.
pub fn joined(parts: &Vec<String>, sep: &str) -> (r: String)
    ensures
        r@ == join(parts.deep_view(), sep@),
{
    let mut out = String::new();
    let mut i: usize = 0;
    let ghost all = parts.deep_view();
    while i < parts.len()
        invariant
            i <= parts@.len(),
            all == parts.deep_view(),
            out@ == join(all.subrange(0, i as int), sep@),
        decreases parts.len() - i,
    {
        let ghost next = all.subrange(0, i + 1);
        assert(next.drop_last() == all.subrange(0, i as int));
        if i > 0 {
            out.append(sep);
        }
        out.append(parts[i].as_str());
        assert(next.last() == parts@[i as int]@);
        i = i + 1;
    }
    assert(all.subrange(0, i as int) == all);
    out
}

/// The same texts once more.
pub fn copy_texts(items: &Vec<String>) -> (r: Vec<String>)
    ensures
        r.deep_view() == items.deep_view(),
{
    let mut out: Vec<String> = Vec::new();
    let mut i: usize = 0;
    while i < items.len()
        invariant
            i <= items@.len(),
            out@.len() == i,
            forall|j: int| 0 <= j < i ==> (#[trigger] out@[j])@ == items@[j]@,
        decreases items.len() - i,
    {
        out.push(items[i].clone());
        i = i + 1;
    }
    assert(out.deep_view() =~= items.deep_view());
    out
}

/// The same optional text once more.
pub fn copy_optional_text(text: &Option<String>) -> (r: Option<String>)
    ensures
        r.deep_view() == text.deep_view(),
{
    match text {
        Some(s) => Some(s.clone()),
        None => None,
    }
}

/// The optional text, borrowed.
pub fn borrowed(text: &Option<String>) -> (r: Option<&str>)
    ensures
        r.deep_view() == text.deep_view(),
{
    match text {
        Some(s) => Some(s.as_str()),
        None => None,
    }
}

/// Whether the two lists hold the same texts in the same order.
pub fn same_texts(a: &Vec<String>, b: &Vec<String>) -> (r: bool)
    ensures
        r == (a.deep_view() == b.deep_view()),
{
    if a.len() != b.len() {
        assert(a.deep_view().len() != b.deep_view().len());
        return false;
    }
    let mut i: usize = 0;
    while i < a.len()
        invariant
            i <= a@.len() == b@.len(),
            forall|j: int| 0 <= j < i ==> #[trigger] a.deep_view()[j] == b.deep_view()[j],
        decreases a.len() - i,
    {
        if !same_text(a[i].as_str(), b[i].as_str()) {
            assert(a.deep_view()[i as int] != b.deep_view()[i as int]);
            return false;
        }
        i = i + 1;
    }
    assert(a.deep_view() =~= b.deep_view());
    true
}

/// Whether `s` is one of `items`.
pub fn is_among(items: &Vec<String>, s: &str) -> (r: bool)
    ensures
        r == items.deep_view().contains(s@),
{
    let mut i: usize = 0;
    while i < items.len()
        invariant
            i <= items@.len(),
            forall|j: int| 0 <= j < i ==> items.deep_view()[j] != s@,
        decreases items.len() - i,
    {
        if same_text(items[i].as_str(), s) {
            assert(items.deep_view()[i as int] == s@);
            return true;
        }
        i = i + 1;
    }
    false
}

} // verus!
