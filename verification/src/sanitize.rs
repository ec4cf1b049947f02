//! Turning the text that a contract returned into lines that are safe to
//! place inside markup.

use vstd::prelude::*;
use vstd::utf8::{decode_utf8, valid_utf8};
use crate::error::ServiceError;
use crate::text::{
    chars_of, free_of, free_of_pair, join_lines, lemma_join_split, lemma_replace_absent,
    lemma_replace_keeps_free, lemma_replace_keeps_pair_free, lemma_replace_pair_removes,
    lemma_replace_removes, lemma_split_lines_free, lemma_split_lines_len,
    lemma_split_lines_pair_free, line_views, replace_all, replace_chars, split_chars, split_lines,
};

verus! {

/// The character that the upstream encoder leaves behind as a field
/// terminator: the ASCII file separator.
pub const FIELD_TERMINATOR: char = '\u{1c}';

/// `s` with `<` and `>` written as the entities `&lt;` and `&gt;`.
pub open spec fn escape_markup(s: Seq<char>) -> Seq<char> {
    replace_all(
        replace_all(s, seq!['<'], seq!['&', 'l', 't', ';']),
        seq!['>'],
        seq!['&', 'g', 't', ';'],
    )
}

/// `text` made safe, before it is cut into lines. In this order: NUL
/// characters are removed; field terminators are removed; a doubled
/// backslash becomes a single one; a backslash followed by `n` becomes a
/// line break; `<` and `>` become entities.
pub open spec fn escaped_text(text: Seq<char>) -> Seq<char> {
    let no_nul = replace_all(text, seq!['\0'], Seq::<char>::empty());
    let no_terminator = replace_all(no_nul, seq![FIELD_TERMINATOR], Seq::<char>::empty());
    let unescaped = replace_all(no_terminator, seq!['\\', '\\'], seq!['\\']);
    let broken = replace_all(unescaped, seq!['\\', 'n'], seq!['\n']);
    escape_markup(broken)
}

/// The lines that `text` is rendered as.
pub open spec fn sanitized_lines(text: Seq<char>) -> Seq<Seq<char>> {
    split_lines(escaped_text(text))
}

/// A line that can stand between two tags: it holds no NUL, no field
/// terminator, no `<` or `>`, no line break, and no backslash directly
/// followed by `n`.
pub open spec fn is_safe_line(line: Seq<char>) -> bool {
    &&& free_of(line, '\0')
    &&& free_of(line, FIELD_TERMINATOR)
    &&& free_of(line, '<')
    &&& free_of(line, '>')
    &&& free_of(line, '\n')
    &&& free_of_pair(line, '\\', 'n')
}

/// At least one line, and every line safe.
pub open spec fn is_sanitized(lines: Seq<Seq<char>>) -> bool {
    &&& lines.len() >= 1
    &&& forall|i: int| 0 <= i < lines.len() ==> is_safe_line(#[trigger] lines[i])
}

/// Text that went through the sanitizer: one or more lines, none of which
/// can open or close a tag.
pub struct SanitizedText {
    lines: Vec<String>,
}

impl View for SanitizedText {
    type V = Seq<Seq<char>>;

    closed spec fn view(&self) -> Seq<Seq<char>> {
        line_views(self.lines@)
    }
}

impl SanitizedText {
    #[verifier::type_invariant]
    spec fn safe(&self) -> bool {
        is_sanitized(line_views(self.lines@))
    }

    /// The lines, in order.
    pub fn lines(&self) -> (lines: &Vec<String>)
        ensures
            line_views(lines@) == self@,
            is_sanitized(self@),
    {
        proof {
            use_type_invariant(self);
        }
        &self.lines
    }

    /// The number of lines, which is at least one.
    pub fn line_count(&self) -> (n: usize)
        ensures
            n == self@.len(),
            n >= 1,
    {
        proof {
            use_type_invariant(self);
        }
        self.lines.len()
    }
}

/// Sanitizes text that is already decoded.
pub fn sanitize_text(text: &str) -> (safe: SanitizedText)
    ensures
        safe@ == sanitized_lines(text@),
        is_sanitized(safe@),
        join_lines(safe@) == escaped_text(text@),
{
    let chars = chars_of(text);
    let nul = ['\0'];
    let terminator = [FIELD_TERMINATOR];
    let nothing: [char; 0] = [];
    let double_backslash = ['\\', '\\'];
    let backslash = ['\\'];
    let backslash_n = ['\\', 'n'];
    let line_break = ['\n'];
    let lt = ['<'];
    let lt_entity = ['&', 'l', 't', ';'];
    let gt = ['>'];
    let gt_entity = ['&', 'g', 't', ';'];
    proof {
        assert(nul@ =~= seq!['\0']);
        assert(terminator@ =~= seq![FIELD_TERMINATOR]);
        assert(nothing@ =~= Seq::<char>::empty());
        assert(double_backslash@ =~= seq!['\\', '\\']);
        assert(backslash@ =~= seq!['\\']);
        assert(backslash_n@ =~= seq!['\\', 'n']);
        assert(line_break@ =~= seq!['\n']);
        assert(lt@ =~= seq!['<']);
        assert(lt_entity@ =~= seq!['&', 'l', 't', ';']);
        assert(gt@ =~= seq!['>']);
        assert(gt_entity@ =~= seq!['&', 'g', 't', ';']);
    }
    let no_nul = replace_chars(chars.as_slice(), nul.as_slice(), nothing.as_slice());
    let no_terminator = replace_chars(
        no_nul.as_slice(),
        terminator.as_slice(),
        nothing.as_slice(),
    );
    let unescaped = replace_chars(
        no_terminator.as_slice(),
        double_backslash.as_slice(),
        backslash.as_slice(),
    );
    let broken = replace_chars(unescaped.as_slice(), backslash_n.as_slice(), line_break.as_slice());
    let no_lt = replace_chars(broken.as_slice(), lt.as_slice(), lt_entity.as_slice());
    let escaped = replace_chars(no_lt.as_slice(), gt.as_slice(), gt_entity.as_slice());
    let lines = split_chars(escaped.as_slice());
    proof {
        lemma_sanitized_lines_safe(text@);
        lemma_sanitized_lines_rejoin(text@);
    }
    SanitizedText { lines }
}

/// Decodes the bytes that a contract returned and sanitizes the text.
/// Bytes that are not well-formed UTF-8 are refused, never repaired.
pub fn sanitize(raw: &[u8]) -> (r: Result<SanitizedText, ServiceError>)
    ensures
        valid_utf8(raw@) ==> (r matches Ok(safe) && safe@ == sanitized_lines(decode_utf8(raw@))
            && is_sanitized(safe@) && join_lines(safe@) == escaped_text(decode_utf8(raw@))),
        !valid_utf8(raw@) ==> r == Err::<SanitizedText, ServiceError>(ServiceError::InvalidEncoding),
{
    match std::str::from_utf8(raw) {
        Ok(text) => Ok(sanitize_text(text)),
        Err(_) => Err(ServiceError::InvalidEncoding),
    }
}

/// The sanitized lines of any text are safe to render.
pub proof fn lemma_sanitized_lines_safe(text: Seq<char>)
    ensures
        is_sanitized(sanitized_lines(text)),
{
    let none = Seq::<char>::empty();
    let lt = seq!['&', 'l', 't', ';'];
    let gt = seq!['&', 'g', 't', ';'];
    let s1 = replace_all(text, seq!['\0'], none);
    let s2 = replace_all(s1, seq![FIELD_TERMINATOR], none);
    let s3 = replace_all(s2, seq!['\\', '\\'], seq!['\\']);
    let s4 = replace_all(s3, seq!['\\', 'n'], seq!['\n']);
    let s5 = replace_all(s4, seq!['<'], lt);
    let s6 = replace_all(s5, seq!['>'], gt);
    assert(s6 == escaped_text(text));

    lemma_replace_removes(text, '\0', none);
    lemma_replace_keeps_free(s1, seq![FIELD_TERMINATOR], none, '\0');
    lemma_replace_keeps_free(s2, seq!['\\', '\\'], seq!['\\'], '\0');
    lemma_replace_keeps_free(s3, seq!['\\', 'n'], seq!['\n'], '\0');
    lemma_replace_keeps_free(s4, seq!['<'], lt, '\0');
    lemma_replace_keeps_free(s5, seq!['>'], gt, '\0');

    lemma_replace_removes(s1, FIELD_TERMINATOR, none);
    lemma_replace_keeps_free(s2, seq!['\\', '\\'], seq!['\\'], FIELD_TERMINATOR);
    lemma_replace_keeps_free(s3, seq!['\\', 'n'], seq!['\n'], FIELD_TERMINATOR);
    lemma_replace_keeps_free(s4, seq!['<'], lt, FIELD_TERMINATOR);
    lemma_replace_keeps_free(s5, seq!['>'], gt, FIELD_TERMINATOR);

    lemma_replace_removes(s4, '<', lt);
    lemma_replace_keeps_free(s5, seq!['>'], gt, '<');

    lemma_replace_removes(s5, '>', gt);

    lemma_replace_pair_removes(s3, '\\', 'n', '\n');
    lemma_replace_keeps_pair_free(s4, '<', lt, '\\', 'n');
    lemma_replace_keeps_pair_free(s5, '>', gt, '\\', 'n');
    lemma_split_lines_pair_free(s6, '\\', 'n');

    lemma_split_lines_len(s6);
    lemma_split_lines_free(s6, '\0');
    lemma_split_lines_free(s6, FIELD_TERMINATOR);
    lemma_split_lines_free(s6, '<');
    lemma_split_lines_free(s6, '>');
    lemma_split_lines_free(s6, '\n');
}

/// The sanitized lines of a text, joined by line breaks, are the text
/// with the escaping applied.
pub proof fn lemma_sanitized_lines_rejoin(text: Seq<char>)
    ensures
        join_lines(sanitized_lines(text)) == escaped_text(text),
{
    lemma_join_split(escaped_text(text));
}

/// Escaping markup twice is the same as escaping it once.
pub proof fn lemma_escape_markup_idempotent(s: Seq<char>)
    ensures
        escape_markup(escape_markup(s)) == escape_markup(s),
{
    let lt = seq!['&', 'l', 't', ';'];
    let gt = seq!['&', 'g', 't', ';'];
    let a = replace_all(s, seq!['<'], lt);
    let b = replace_all(a, seq!['>'], gt);
    lemma_replace_removes(s, '<', lt);
    lemma_replace_keeps_free(a, seq!['>'], gt, '<');
    lemma_replace_removes(a, '>', gt);
    lemma_replace_absent(b, '<', lt);
    lemma_replace_absent(b, '>', gt);
}

} // verus!
