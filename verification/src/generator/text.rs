//! The vocabulary for emitted text: word characters, and the lines, the words
//! and the visible characters of a character sequence.

use vstd::prelude::*;

verus! {

/// A character that Lua reads as part of a name, a keyword or a number: an
/// ASCII letter, an ASCII digit or an underscore.
pub open spec fn is_word_char(c: char) -> bool {
    ('a' <= c && c <= 'z') || ('A' <= c && c <= 'Z') || is_digit_char(c) || c == '_'
}

/// An ASCII decimal digit.
pub open spec fn is_digit_char(c: char) -> bool {
    '0' <= c && c <= '9'
}

/// Whether `text` holds no line break.
pub open spec fn is_single_line(text: Seq<char>) -> bool {
    forall|i: int| 0 <= i < text.len() ==> text[i] != '\n'
}

/// The number of characters of `text` after its last line break, or its whole
/// length when it has none.
pub open spec fn column(text: Seq<char>) -> nat
    decreases text.len(),
{
    if text.len() == 0 {
        0
    } else if text.last() == '\n' {
        0
    } else {
        column(text.drop_last()) + 1
    }
}

/// The length of the longest line of `text`.
pub open spec fn widest_line(text: Seq<char>) -> nat
    decreases text.len(),
{
    if text.len() == 0 {
        0
    } else {
        let before = widest_line(text.drop_last());
        if column(text) > before {
            column(text)
        } else {
            before
        }
    }
}

/// `text` without the spaces at its end.
pub open spec fn strip_trailing_spaces(text: Seq<char>) -> Seq<char>
    decreases text.len(),
{
    if text.len() > 0 && text.last() == ' ' {
        strip_trailing_spaces(text.drop_last())
    } else {
        text
    }
}

/// The words of `text`: its maximal runs of word characters, in order.
pub open spec fn words(text: Seq<char>) -> Seq<Seq<char>>
    decreases text.len(),
{
    if text.len() == 0 {
        Seq::empty()
    } else {
        let before = text.drop_last();
        let c = text.last();
        if !is_word_char(c) {
            words(before)
        } else if before.len() > 0 && is_word_char(before.last()) {
            words(before).drop_last().push(words(before).last().push(c))
        } else {
            words(before).push(seq![c])
        }
    }
}

/// A space or a line break: what the generator writes between fragments.
pub open spec fn is_blank(c: char) -> bool {
    c == ' ' || c == '\n'
}

/// `text` without its spaces and line breaks.
pub open spec fn visible(text: Seq<char>) -> Seq<char>
    decreases text.len(),
{
    if text.len() == 0 {
        Seq::empty()
    } else if is_blank(text.last()) {
        visible(text.drop_last())
    } else {
        visible(text.drop_last()).push(text.last())
    }
}

/// Whether nothing can merge when `right` is written directly after `left`:
/// one of them is empty, or a character that is no word character stands on
/// one side of the seam.
pub open spec fn is_seam_safe(left: Seq<char>, right: Seq<char>) -> bool {
    left.len() == 0 || right.len() == 0 || !is_word_char(left.last()) || !is_word_char(right[0])
}

/// A character that is no word character adds no word.
pub proof fn lemma_words_push_other(text: Seq<char>, c: char)
    requires
        !is_word_char(c),
    ensures
        words(text.push(c)) == words(text),
{
    assert(text.push(c).drop_last() =~= text);
}

/// A text that ends with a word character has a last word.
pub proof fn lemma_words_of_word_ending(text: Seq<char>)
    requires
        text.len() > 0,
        is_word_char(text.last()),
    ensures
        words(text).len() > 0,
{
}

/// What a character adds to the words of a text depends on the words of the
/// text and on its last character alone.
pub proof fn lemma_words_push_same_ending(first: Seq<char>, second: Seq<char>, c: char)
    requires
        words(first) == words(second),
        first.len() == 0 <==> second.len() == 0,
        first.len() > 0 ==> is_word_char(first.last()) == is_word_char(second.last()),
    ensures
        words(first.push(c)) == words(second.push(c)),
{
    assert(first.push(c).drop_last() =~= first);
    assert(second.push(c).drop_last() =~= second);
}

/// Across a safe seam no word reaches: the words of the whole are the words
/// of the left part, then the words of the right part.
pub proof fn lemma_words_concat(left: Seq<char>, right: Seq<char>)
    requires
        is_seam_safe(left, right),
    ensures
        words(left + right) == words(left) + words(right),
    decreases right.len(),
{
    if right.len() == 0 {
        assert(left + right =~= left);
        assert(words(left) + words(right) =~= words(left));
    } else {
        let shorter = right.drop_last();
        let c = right.last();
        assert((left + right).drop_last() =~= left + shorter);
        assert(is_seam_safe(left, shorter)) by {
            if shorter.len() > 0 {
                assert(shorter[0] == right[0]);
            }
        }
        lemma_words_concat(left, shorter);
        if !is_word_char(c) {
        } else if shorter.len() > 0 {
            assert((left + shorter).last() == shorter.last());
            if is_word_char(shorter.last()) {
                lemma_words_of_word_ending(shorter);
                assert(words(left + right) =~= words(left) + words(right));
            } else {
                assert(words(left + right) =~= words(left) + words(right));
            }
        } else {
            assert(left + shorter =~= left);
            assert(right[0] == c);
            assert(words(right) =~= seq![seq![c]]) by {
                assert(words(shorter) =~= Seq::<Seq<char>>::empty());
            }
            assert(words(left + right) =~= words(left) + words(right));
        }
    }
}

/// The spaces at the end of a text hold no word.
pub proof fn lemma_words_strip_trailing_spaces(text: Seq<char>)
    ensures
        words(strip_trailing_spaces(text)) == words(text),
        strip_trailing_spaces(text).len() <= text.len(),
        strip_trailing_spaces(text) == text.take(strip_trailing_spaces(text).len() as int),
    decreases text.len(),
{
    if text.len() > 0 && text.last() == ' ' {
        lemma_words_strip_trailing_spaces(text.drop_last());
        let stripped = strip_trailing_spaces(text.drop_last());
        assert(text.drop_last().take(stripped.len() as int) =~= text.take(stripped.len() as int));
    } else {
        assert(text.take(text.len() as int) =~= text);
    }
}

/// The last line is no longer than the longest line, nor than the text.
pub proof fn lemma_column_bounds(text: Seq<char>)
    ensures
        column(text) <= widest_line(text),
        column(text) <= text.len(),
    decreases text.len(),
{
    if text.len() > 0 {
        lemma_column_bounds(text.drop_last());
    }
}

/// What one more character does to the lines of a text.
pub proof fn lemma_lines_push(text: Seq<char>, c: char)
    ensures
        column(text.push(c)) == if c == '\n' {
            0
        } else {
            column(text) + 1
        },
        widest_line(text.push(c)) == if c != '\n' && column(text) + 1 > widest_line(text) {
            column(text) + 1
        } else {
            widest_line(text)
        },
{
    assert(text.push(c).drop_last() =~= text);
    lemma_column_bounds(text);
}

/// What a text without a line break does to the lines of the text that it
/// follows: it makes the last line longer and changes no other line.
pub proof fn lemma_lines_concat(text: Seq<char>, more: Seq<char>)
    requires
        is_single_line(more),
    ensures
        column(text + more) == column(text) + more.len(),
        widest_line(text + more) == if column(text) + more.len() > widest_line(text) {
            column(text) + more.len()
        } else {
            widest_line(text)
        },
    decreases more.len(),
{
    lemma_column_bounds(text);
    if more.len() == 0 {
        assert(text + more =~= text);
    } else {
        lemma_lines_concat(text, more.drop_last());
        assert(text + more =~= (text + more.drop_last()).push(more.last()));
        lemma_lines_push(text + more.drop_last(), more.last());
    }
}

/// What a text does to the lines of the text that it follows, whatever it
/// holds: it makes the last line longer by no more than its length, and every
/// line that it adds is shorter than that.
pub proof fn lemma_lines_concat_bound(text: Seq<char>, more: Seq<char>)
    ensures
        column(text + more) <= column(text) + more.len(),
        widest_line(text + more) <= if column(text) + more.len() > widest_line(text) {
            column(text) + more.len()
        } else {
            widest_line(text)
        },
    decreases more.len(),
{
    lemma_column_bounds(text);
    if more.len() == 0 {
        assert(text + more =~= text);
    } else {
        lemma_lines_concat_bound(text, more.drop_last());
        assert(text + more =~= (text + more.drop_last()).push(more.last()));
        lemma_lines_push(text + more.drop_last(), more.last());
    }
}

/// No line of the beginning of a text is longer than the longest line of the
/// text.
pub proof fn lemma_widest_line_of_prefix(text: Seq<char>, length: int)
    requires
        0 <= length <= text.len(),
    ensures
        widest_line(text.take(length)) <= widest_line(text),
    decreases text.len(),
{
    if length == text.len() {
        assert(text.take(length) =~= text);
    } else {
        lemma_widest_line_of_prefix(text.drop_last(), length);
        assert(text.drop_last().take(length) =~= text.take(length));
    }
}

/// The last line of a text holds no line break.
pub proof fn lemma_last_line_is_single(text: Seq<char>, length: int)
    requires
        0 <= length <= column(text),
    ensures
        length <= text.len(),
        is_single_line(text.subrange(text.len() - length, text.len() as int)),
    decreases text.len(),
{
    lemma_column_bounds(text);
    if length > 0 {
        lemma_last_line_is_single(text.drop_last(), length - 1);
        let tail = text.subrange(text.len() - length, text.len() as int);
        let shorter = text.drop_last().subrange(
            text.len() - 1 - (length - 1),
            text.len() - 1,
        );
        assert forall|i: int| 0 <= i < tail.len() implies tail[i] != '\n' by {
            if i < length - 1 {
                assert(tail[i] == shorter[i]);
            }
        }
    }
}

/// What one more character adds to the visible characters of a text.
pub proof fn lemma_visible_push(text: Seq<char>, c: char)
    ensures
        visible(text.push(c)) == if is_blank(c) {
            visible(text)
        } else {
            visible(text).push(c)
        },
{
    assert(text.push(c).drop_last() =~= text);
}

/// The visible characters of a text in two parts are those of the first
/// part, then those of the second.
pub proof fn lemma_visible_concat(left: Seq<char>, right: Seq<char>)
    ensures
        visible(left + right) == visible(left) + visible(right),
    decreases right.len(),
{
    if right.len() == 0 {
        assert(left + right =~= left);
        assert(visible(left) + visible(right) =~= visible(left));
    } else {
        lemma_visible_concat(left, right.drop_last());
        assert((left + right).drop_last() =~= left + right.drop_last());
        assert(visible(left + right) =~= visible(left) + visible(right));
    }
}

/// The spaces at the end of a text are not visible.
pub proof fn lemma_visible_strip_trailing_spaces(text: Seq<char>)
    ensures
        visible(strip_trailing_spaces(text)) == visible(text),
    decreases text.len(),
{
    if text.len() > 0 && text.last() == ' ' {
        lemma_visible_strip_trailing_spaces(text.drop_last());
    }
}

/// The last line begins at the start of the text or directly behind a line
/// break.
pub proof fn lemma_last_line_begins_after_break(text: Seq<char>)
    ensures
        column(text) <= text.len(),
        column(text) < text.len() ==> text[text.len() - column(text) - 1] == '\n',
    decreases text.len(),
{
    if text.len() > 0 && text.last() != '\n' {
        lemma_last_line_begins_after_break(text.drop_last());
    }
}

/// A text that ends with a stretch without a line break has a last line that
/// is as long as the stretch, or longer.
pub proof fn lemma_column_covers_stretch(text: Seq<char>, start: int)
    requires
        0 <= start <= text.len(),
        is_single_line(text.subrange(start, text.len() as int)),
    ensures
        column(text) >= text.len() - start,
    decreases text.len(),
{
    if start < text.len() {
        let stretch = text.subrange(start, text.len() as int);
        let shorter = text.drop_last().subrange(start, text.len() - 1);
        assert(stretch[stretch.len() - 1] == text.last());
        assert forall|i: int| 0 <= i < shorter.len() implies shorter[i] != '\n' by {
            assert(shorter[i] == stretch[i]);
        }
        lemma_column_covers_stretch(text.drop_last(), start);
    }
}

/// No stretch of a text without a line break is longer than the longest line
/// of the text.
pub proof fn lemma_widest_line_covers_stretch(text: Seq<char>, start: int, end: int)
    requires
        0 <= start <= end <= text.len(),
        is_single_line(text.subrange(start, end)),
    ensures
        end - start <= widest_line(text),
    decreases text.len(),
{
    if end == text.len() {
        lemma_column_covers_stretch(text, start);
        lemma_column_bounds(text);
    } else {
        assert(text.drop_last().subrange(start, end) =~= text.subrange(start, end));
        lemma_widest_line_covers_stretch(text.drop_last(), start, end);
    }
}

/// Every word holds a character, and word characters only.
pub proof fn lemma_words_hold_word_characters(text: Seq<char>, index: int)
    requires
        0 <= index < words(text).len(),
    ensures
        words(text)[index].len() > 0,
        forall|i: int|
            0 <= i < words(text)[index].len() ==> is_word_char(#[trigger] words(text)[index][i]),
    decreases text.len(),
{
    if text.len() > 0 {
        let before = text.drop_last();
        let c = text.last();
        if !is_word_char(c) {
            lemma_words_hold_word_characters(before, index);
        } else if before.len() > 0 && is_word_char(before.last()) {
            lemma_words_of_word_ending(before);
            if index < words(before).len() - 1 {
                lemma_words_hold_word_characters(before, index);
            } else {
                lemma_words_hold_word_characters(before, words(before).len() - 1);
            }
        } else {
            if index < words(before).len() {
                lemma_words_hold_word_characters(before, index);
            }
        }
    }
}

} // verus!
