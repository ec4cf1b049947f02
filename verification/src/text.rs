//! Texts as sequences of characters: moving between strings and
//! characters, replacing, splitting at line breaks, and what these
//! operations keep out of a text.

use vstd::prelude::*;
use vstd::utf8::{decode_utf8, valid_utf8};
use crate::notation::decimal_digits;

verus! {

/// `String::push` of the standard library: the string grows by exactly the
/// given character, at its end.
pub assume_specification[ String::push ](s: &mut String, ch: char)
    ensures
        final(s)@ == old(s)@.push(ch),
;

/// `std::str::from_utf8` of the standard library: it succeeds on exactly
/// the byte sequences that are well-formed UTF-8, and the string it then
/// returns holds the characters that those bytes encode.
pub assume_specification[ std::str::from_utf8 ](v: &[u8]) -> (r: Result<&str, std::str::Utf8Error>)
    ensures
        r is Ok <==> valid_utf8(v@),
        r matches Ok(s) ==> s@ == decode_utf8(v@),
;

/// The error of `std::str::from_utf8`.
#[verifier::external_type_specification]
#[verifier::external_body]
pub struct ExUtf8Error(std::str::Utf8Error);

/// The characters of `s`, in order.
pub fn chars_of(s: &str) -> (out: Vec<char>)
    ensures
        out@ == s@,
{
    let mut out: Vec<char> = Vec::new();
    for c in it: s.chars()
        invariant
            out@ == it.seq().take(it.index() as int),
            it.seq() == s@,
    {
        out.push(c);
    }
    out
}

/// The string made of the characters of `chars`, in order.
pub fn string_of(chars: &[char]) -> (out: String)
    ensures
        out@ == chars@,
{
    let mut out = String::new();
    let mut i: usize = 0;
    while i < chars.len()
        invariant
            i <= chars.len(),
            out@ == chars@.take(i as int),
        decreases chars.len() - i,
    {
        out.push(chars[i]);
        i += 1;
    }
    out
}

/// Appends the items of `tail` to `out`.
pub fn push_all<T: Copy>(out: &mut Vec<T>, tail: &[T])
    ensures
        final(out)@ == old(out)@ + tail@,
{
    let mut i: usize = 0;
    while i < tail.len()
        invariant
            i <= tail.len(),
            out@ == old(out)@ + tail@.take(i as int),
        decreases tail.len() - i,
    {
        out.push(tail[i]);
        i += 1;
    }
}

/// Appends `n`, written in decimal without leading zeros, to `out`.
pub fn push_decimal(out: &mut String, n: u64)
    ensures
        final(out)@ == old(out)@ + decimal_digits(n as nat),
    decreases n,
{
    if n >= 10 {
        push_decimal(out, n / 10);
    }
    let digit = (n % 10) as u8;
    out.push((48 + digit) as char);
}

/// `s` with every occurrence of `pat` replaced by `to`. Occurrences are
/// found scanning from the left and do not overlap; what a replacement
/// put in is not scanned again. An empty `pat` occurs nowhere.
pub open spec fn replace_all(s: Seq<char>, pat: Seq<char>, to: Seq<char>) -> Seq<char>
    decreases s.len(),
{
    if pat.len() == 0 || s.len() == 0 {
        s
    } else if pat.is_prefix_of(s) {
        to + replace_all(s.skip(pat.len() as int), pat, to)
    } else {
        seq![s[0]] + replace_all(s.skip(1), pat, to)
    }
}

/// Whether `pat` stands in `input` at index `at`.
fn occurs_at(input: &[char], at: usize, pat: &[char]) -> (found: bool)
    requires
        at <= input.len(),
    ensures
        found == pat@.is_prefix_of(input@.skip(at as int)),
{
    if pat.len() > input.len() - at {
        return false;
    }
    let mut k: usize = 0;
    while k < pat.len()
        invariant
            k <= pat.len(),
            at + pat.len() <= input.len(),
            forall|j: int| 0 <= j < k ==> pat@[j] == input@[at + j],
        decreases pat.len() - k,
    {
        if input[at + k] != pat[k] {
            assert(input@.skip(at as int)[k as int] != pat@[k as int]);
            return false;
        }
        k += 1;
    }
    assert(pat@ =~= input@.skip(at as int).subrange(0, pat@.len() as int));
    true
}

/// Replaces every occurrence of `pat` in `input` by `to`, from the left.
pub fn replace_chars(input: &[char], pat: &[char], to: &[char]) -> (out: Vec<char>)
    ensures
        out@ == replace_all(input@, pat@, to@),
{
    let mut out: Vec<char> = Vec::new();
    if pat.len() == 0 {
        push_all(&mut out, input);
        return out;
    }
    let mut i: usize = 0;
    assert(input@.skip(0) =~= input@);
    while i < input.len()
        invariant
            pat.len() > 0,
            i <= input.len(),
            out@ + replace_all(input@.skip(i as int), pat@, to@) == replace_all(
                input@,
                pat@,
                to@,
            ),
        decreases input.len() - i,
    {
        let ghost rest = input@.skip(i as int);
        if occurs_at(input, i, pat) {
            assert(rest.skip(pat@.len() as int) =~= input@.skip(i + pat@.len()));
            push_all(&mut out, to);
            i += pat.len();
        } else {
            assert(rest.skip(1) =~= input@.skip(i + 1));
            out.push(input[i]);
            i += 1;
        }
    }
    out
}

/// The pieces of `s` between line breaks, in order. There is always at
/// least one piece: a text without a line break is a single line, and an
/// empty text is a single empty line.
pub open spec fn split_lines(s: Seq<char>) -> Seq<Seq<char>>
    decreases s.len(),
{
    if s.len() == 0 {
        seq![Seq::<char>::empty()]
    } else {
        let before = split_lines(s.drop_last());
        if s.last() == '\n' {
            before.push(Seq::<char>::empty())
        } else {
            before.update(before.len() - 1, before.last().push(s.last()))
        }
    }
}

/// The lines put together again, with a line break between neighbours.
pub open spec fn join_lines(lines: Seq<Seq<char>>) -> Seq<char>
    decreases lines.len(),
{
    if lines.len() == 0 {
        Seq::<char>::empty()
    } else if lines.len() == 1 {
        lines[0]
    } else {
        join_lines(lines.drop_last()) + seq!['\n'] + lines.last()
    }
}

/// What each string of `lines` holds.
pub open spec fn line_views(lines: Seq<String>) -> Seq<Seq<char>> {
    Seq::new(lines.len(), |i: int| lines[i]@)
}

/// Splits `input` at its line breaks.
pub fn split_chars(input: &[char]) -> (lines: Vec<String>)
    ensures
        line_views(lines@) == split_lines(input@),
{
    let mut lines: Vec<String> = Vec::new();
    let mut current = String::new();
    let mut i: usize = 0;
    assert(line_views(lines@).push(current@) =~= split_lines(input@.take(0)));
    while i < input.len()
        invariant
            i <= input.len(),
            line_views(lines@).push(current@) == split_lines(input@.take(i as int)),
        decreases input.len() - i,
    {
        let c = input[i];
        proof {
            assert(input@.take(i + 1).drop_last() =~= input@.take(i as int));
            assert(input@.take(i + 1).last() == c);
        }
        let ghost before = line_views(lines@).push(current@);
        if c == '\n' {
            lines.push(current);
            current = String::new();
            assert(line_views(lines@).push(current@) =~= before.push(Seq::<char>::empty()));
        } else {
            current.push(c);
            assert(line_views(lines@).push(current@) =~= before.update(
                before.len() - 1,
                before.last().push(c),
            ));
        }
        i += 1;
    }
    assert(input@.take(i as int) =~= input@);
    let ghost done = line_views(lines@).push(current@);
    lines.push(current);
    assert(line_views(lines@) =~= done);
    lines
}

/// No character of `s` is `c`.
pub open spec fn free_of(s: Seq<char>, c: char) -> bool {
    forall|i: int| 0 <= i < s.len() ==> s[i] != c
}

/// Nowhere in `s` is `a` directly followed by `b`.
pub open spec fn free_of_pair(s: Seq<char>, a: char, b: char) -> bool {
    forall|i: int| 0 <= i && i + 1 < s.len() ==> !(#[trigger] s[i] == a && s[i + 1] == b)
}

/// How often `c` occurs in `s`.
pub open spec fn count_of(s: Seq<char>, c: char) -> nat
    decreases s.len(),
{
    if s.len() == 0 {
        0
    } else if s.last() == c {
        count_of(s.drop_last(), c) + 1
    } else {
        count_of(s.drop_last(), c)
    }
}

/// Occurrences in a concatenation are those of its two parts.
pub proof fn lemma_count_of_concat(a: Seq<char>, b: Seq<char>, c: char)
    ensures
        count_of(a + b, c) == count_of(a, c) + count_of(b, c),
    decreases b.len(),
{
    if b.len() == 0 {
        assert(a + b =~= a);
    } else {
        lemma_count_of_concat(a, b.drop_last(), c);
        assert((a + b).drop_last() =~= a + b.drop_last());
    }
}

/// A character that a text does not hold occurs in it zero times.
pub proof fn lemma_count_of_free(s: Seq<char>, c: char)
    requires
        free_of(s, c),
    ensures
        count_of(s, c) == 0,
    decreases s.len(),
{
    if s.len() > 0 {
        lemma_count_of_free(s.drop_last(), c);
    }
}

/// A text always splits into at least one line.
pub proof fn lemma_split_lines_len(s: Seq<char>)
    ensures
        split_lines(s).len() >= 1,
    decreases s.len(),
{
    if s.len() > 0 {
        lemma_split_lines_len(s.drop_last());
    }
}

/// Replacing keeps a character out that neither the text nor the
/// replacement holds.
pub proof fn lemma_replace_keeps_free(s: Seq<char>, pat: Seq<char>, to: Seq<char>, c: char)
    requires
        free_of(s, c),
        free_of(to, c),
    ensures
        free_of(replace_all(s, pat, to), c),
    decreases s.len(),
{
    if pat.len() == 0 || s.len() == 0 {
    } else if pat.is_prefix_of(s) {
        lemma_replace_keeps_free(s.skip(pat.len() as int), pat, to, c);
    } else {
        lemma_replace_keeps_free(s.skip(1), pat, to, c);
    }
}

/// Replacing a character removes it, unless the replacement brings it
/// back.
pub proof fn lemma_replace_removes(s: Seq<char>, c: char, to: Seq<char>)
    requires
        free_of(to, c),
    ensures
        free_of(replace_all(s, seq![c], to), c),
    decreases s.len(),
{
    let pat = seq![c];
    if s.len() == 0 {
    } else if pat.is_prefix_of(s) {
        lemma_replace_removes(s.skip(1), c, to);
    } else {
        assert(s[0] != c) by {
            if s[0] == c {
                assert(pat =~= s.subrange(0, 1));
            }
        }
        lemma_replace_removes(s.skip(1), c, to);
    }
}

/// Replacing a character that the text does not hold changes nothing.
pub proof fn lemma_replace_absent(s: Seq<char>, c: char, to: Seq<char>)
    requires
        free_of(s, c),
    ensures
        replace_all(s, seq![c], to) == s,
    decreases s.len(),
{
    let pat = seq![c];
    if s.len() == 0 {
    } else if pat.is_prefix_of(s) {
        assert(s.subrange(0, 1)[0] == c);
    } else {
        lemma_replace_absent(s.skip(1), c, to);
        assert(seq![s[0]] + s.skip(1) =~= s);
    }
}

/// Replacing a pair of characters by a single other character leaves no
/// such pair behind. What comes out starts with the second of the pair
/// only where the text did.
pub proof fn lemma_replace_pair_removes(s: Seq<char>, a: char, b: char, to: char)
    requires
        to != a,
        to != b,
    ensures
        free_of_pair(replace_all(s, seq![a, b], seq![to]), a, b),
        replace_all(s, seq![a, b], seq![to]).len() > 0 ==> s.len() > 0 && (replace_all(
            s,
            seq![a, b],
            seq![to],
        )[0] == b ==> s[0] == b),
    decreases s.len(),
{
    let pat = seq![a, b];
    if s.len() == 0 {
    } else if pat.is_prefix_of(s) {
        lemma_replace_pair_removes(s.skip(2), a, b, to);
    } else {
        let rest = replace_all(s.skip(1), pat, seq![to]);
        lemma_replace_pair_removes(s.skip(1), a, b, to);
        if s[0] == a && rest.len() > 0 && rest[0] == b {
            assert(s.skip(1)[0] == b);
            assert(pat =~= s.subrange(0, 2));
        }
    }
}

/// Replacing single characters brings no pair in, as long as the
/// replacement is not empty and holds neither character of the pair.
/// What comes out starts with the second of the pair only where the text
/// did.
pub proof fn lemma_replace_keeps_pair_free(
    s: Seq<char>,
    c: char,
    to: Seq<char>,
    a: char,
    b: char,
)
    requires
        free_of_pair(s, a, b),
        to.len() > 0,
        free_of(to, a),
        free_of(to, b),
    ensures
        free_of_pair(replace_all(s, seq![c], to), a, b),
        replace_all(s, seq![c], to).len() > 0 ==> s.len() > 0 && (replace_all(s, seq![c], to)[0]
            == b ==> s[0] == b),
    decreases s.len(),
{
    let pat = seq![c];
    if s.len() == 0 {
    } else {
        let rest = replace_all(s.skip(1), pat, to);
        assert(free_of_pair(s.skip(1), a, b)) by {
            let tail = s.skip(1);
            assert forall|i: int| 0 <= i && i + 1 < tail.len() implies !(#[trigger] tail[i] == a
                && tail[i + 1] == b) by {
                assert(s[i + 1] == tail[i]);
                assert(s[i + 1 + 1] == tail[i + 1]);
            }
        }
        lemma_replace_keeps_pair_free(s.skip(1), c, to, a, b);
        if pat.is_prefix_of(s) {
            let out = to + rest;
            assert forall|i: int| 0 <= i && i + 1 < out.len() implies !(#[trigger] out[i] == a
                && out[i + 1] == b) by {
                if i >= to.len() {
                    assert(out[i] == rest[i - to.len()]);
                    assert(out[i + 1] == rest[i - to.len() + 1]);
                }
            }
        } else {
            let out = seq![s[0]] + rest;
            assert forall|i: int| 0 <= i && i + 1 < out.len() implies !(#[trigger] out[i] == a
                && out[i + 1] == b) by {
                if i == 0 {
                    if s[0] == a && rest[0] == b {
                        assert(s.skip(1)[0] == b);
                        assert(s[1] == b);
                    }
                } else {
                    assert(out[i] == rest[i - 1]);
                    assert(out[i + 1] == rest[i]);
                }
            }
        }
    }
}

/// Neighbours in a line of a split text are neighbours in the text: a
/// pair that the text does not hold is in none of its lines. The last
/// line ends as the text ends.
pub proof fn lemma_split_lines_pair_free(s: Seq<char>, a: char, b: char)
    requires
        free_of_pair(s, a, b),
    ensures
        forall|i: int|
            0 <= i < split_lines(s).len() ==> free_of_pair(#[trigger] split_lines(s)[i], a, b),
        split_lines(s).len() >= 1,
        split_lines(s).last().len() > 0 ==> s.len() > 0 && split_lines(s).last().last()
            == s.last(),
    decreases s.len(),
{
    if s.len() > 0 {
        let init = s.drop_last();
        lemma_split_lines_pair_free(init, a, b);
        let before = split_lines(init);
        if s.last() != '\n' {
            let line = before.last().push(s.last());
            assert forall|i: int| 0 <= i && i + 1 < line.len() implies !(#[trigger] line[i] == a
                && line[i + 1] == b) by {
                if i + 1 == line.len() - 1 {
                    assert(line[i] == before.last().last());
                    assert(line[i] == s[s.len() - 2]);
                    assert(line[i + 1] == s[s.len() - 2 + 1]);
                } else {
                    assert(line[i] == before.last()[i]);
                    assert(line[i + 1] == before.last()[i + 1]);
                }
            }
        }
    }
}

/// Every line of a split text is made of characters of that text, and
/// none holds a line break.
pub proof fn lemma_split_lines_free(s: Seq<char>, c: char)
    requires
        free_of(s, c) || c == '\n',
    ensures
        forall|i: int| 0 <= i < split_lines(s).len() ==> free_of(#[trigger] split_lines(s)[i], c),
    decreases s.len(),
{
    if s.len() > 0 {
        lemma_split_lines_free(s.drop_last(), c);
        lemma_split_lines_len(s.drop_last());
    }
}

/// Joining the lines of a split text gives the text back.
pub proof fn lemma_join_split(s: Seq<char>)
    ensures
        join_lines(split_lines(s)) == s,
    decreases s.len(),
{
    if s.len() == 0 {
    } else {
        let before = split_lines(s.drop_last());
        lemma_join_split(s.drop_last());
        lemma_split_lines_len(s.drop_last());
        if s.last() == '\n' {
            assert(before.push(Seq::<char>::empty()).drop_last() =~= before);
            assert(s.drop_last() + seq!['\n'] + Seq::<char>::empty() =~= s);
        } else {
            let after = before.update(before.len() - 1, before.last().push(s.last()));
            if before.len() == 1 {
                assert(before.last().push(s.last()) =~= s);
            } else {
                assert(after.drop_last() =~= before.drop_last());
                assert(join_lines(before.drop_last()) + seq!['\n'] + before.last().push(s.last())
                    =~= (join_lines(before.drop_last()) + seq!['\n'] + before.last()).push(
                    s.last(),
                ));
                assert(s.drop_last().push(s.last()) =~= s);
            }
        }
    }
}

} // verus!
