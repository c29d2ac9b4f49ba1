//! No word of the output holds characters of two fragments, and what would
//! be misread directly behind the output is kept apart from it.

use crate::generator::emission::{block_emissions, printed};
use crate::generator::layout::{
    Emission, Layout, Separator, breaks_concat, breaks_long_string, breaks_minus,
    breaks_variable_arguments, emission_text,
};
use crate::generator::text::{
    is_digit_char, is_seam_safe, is_word_char, lemma_words_concat, lemma_words_push_other,
    lemma_words_push_same_ending, lemma_words_strip_trailing_spaces, strip_trailing_spaces, words,
};
use crate::nodes::statements::Block;
use vstd::prelude::*;

verus! {

/// The plainest rendering of `emissions` after `start`: a space before every
/// fragment, and nothing before a character that is merged.
pub open spec fn spaced(start: Seq<char>, emissions: Seq<Emission>) -> Seq<char>
    decreases emissions.len(),
{
    if emissions.len() == 0 {
        start
    } else {
        let before = spaced(start, emissions.drop_last());
        let text = emission_text(emissions.last());
        if emissions.last() is Merged {
            before + text
        } else if text.len() == 0 {
            before
        } else {
            before.push(' ') + text
        }
    }
}

/// Whether two texts are both empty, or end with characters of the same kind.
pub open spec fn same_ending(first: Seq<char>, second: Seq<char>) -> bool {
    &&& first.len() == 0 <==> second.len() == 0
    &&& first.len() > 0 ==> is_word_char(first.last()) == is_word_char(second.last())
}

impl Layout {
    /// The last fragment is kept apart from what precedes it: no word reaches
    /// across the place where it begins.
    pub open spec fn is_detached(self) -> bool {
        is_seam_safe(self.before_last_fragment(), self.last_fragment())
    }
}

/// A separator holds no word, and no word reaches across it.
proof fn lemma_separated_words(layout: Layout, separator: Separator, content: Seq<char>)
    requires
        content.len() > 0,
        separator is Nothing ==> is_seam_safe(layout.output, content),
    ensures
        words(layout.separate(separator).output + content) == words(layout.output) + words(
            content,
        ),
        is_seam_safe(layout.separate(separator).output, content),
{
    match separator {
        Separator::Nothing => {
            lemma_words_concat(layout.output, content);
        },
        Separator::Space => {
            lemma_words_push_other(layout.output, ' ');
            lemma_words_concat(layout.output.push(' '), content);
        },
        Separator::NewLine => {
            lemma_words_push_other(layout.output, '\n');
            lemma_words_concat(layout.output.push('\n'), content);
        },
    }
}

/// The state after a fragment has been appended behind a separator.
proof fn lemma_appended(layout: Layout, separator: Separator, content: Seq<char>)
    requires
        layout.well_formed(),
        content.len() > 0,
        separator is Nothing ==> is_seam_safe(layout.output, content),
    ensures
        ({
            let result = layout.separate(separator).append(content);
            &&& result.well_formed()
            &&& result.is_line_open()
            &&& result.is_detached()
            &&& result.last_fragment() == content
            &&& result.output.last() == content.last()
            &&& words(result.output) == words(layout.output) + words(content)
        }),
{
    let separated = layout.separate(separator);
    let result = separated.append(content);
    lemma_separated_words(layout, separator, content);
    assert(result.last_fragment() =~= content);
    assert(result.before_last_fragment() =~= separated.output);
}

/// A plain push of a fragment adds the words of the fragment and changes no
/// other word.
pub proof fn lemma_push_words(layout: Layout, content: Seq<char>)
    requires
        layout.well_formed(),
        content.len() > 0,
    ensures
        ({
            let result = layout.push(content);
            &&& result.well_formed()
            &&& result.is_line_open()
            &&& result.is_detached()
            &&& result.last_fragment() == content
            &&& result.output.last() == content.last()
            &&& words(result.output) == words(layout.output) + words(content)
        }),
{
    reveal(Layout::push);
    lemma_appended(layout, layout.separator_before(content[0], content.len()), content);
}

/// A push of a fragment that begins with no word character adds the words of
/// the fragment and changes no other word, whatever the last fragment is.
pub proof fn lemma_push_if_words(layout: Layout, content: Seq<char>, break_needed: bool)
    requires
        layout.well_formed(),
        content.len() > 0,
        !is_word_char(content[0]),
    ensures
        ({
            let result = layout.push_if(content, break_needed);
            &&& result.well_formed()
            &&& result.is_line_open()
            &&& result.is_detached()
            &&& result.last_fragment() == content
            &&& result.output.last() == content.last()
            &&& words(result.output) == words(layout.output) + words(content)
        }),
{
    reveal(Layout::push_if);
    lemma_appended(layout, layout.separator_if(break_needed, content.len()), content);
}

/// A character that is merged reads as if it were written directly behind the
/// output, also where the last fragment moves to a new line.
pub proof fn lemma_merge_words(layout: Layout, c: char)
    requires
        layout.well_formed(),
        layout.is_detached(),
    ensures
        ({
            let result = layout.merge(c);
            &&& result.well_formed()
            &&& result.is_line_open()
            &&& result.is_detached()
            &&& result.last_fragment() == layout.last_fragment().push(c)
            &&& result.output.last() == c
            &&& words(result.output) == words(layout.output.push(c))
        }),
{
    reveal(Layout::merge);
    let result = layout.merge(c);
    let before = layout.before_last_fragment();
    let last = layout.last_fragment();
    assert(layout.output =~= before + last);
    if layout.fits(1) {
        assert(result.last_fragment() =~= last.push(c));
        assert(result.before_last_fragment() =~= before);
        if last.len() > 0 {
            assert(last.push(c)[0] == last[0]);
        }
    } else {
        let stripped = strip_trailing_spaces(before);
        lemma_words_strip_trailing_spaces(before);
        assert(result.output =~= stripped.push('\n') + last.push(c));
        assert(result.last_fragment() =~= last.push(c));
        assert(result.before_last_fragment() =~= stripped.push('\n'));
        lemma_words_push_other(stripped, '\n');
        lemma_words_concat(stripped.push('\n'), last.push(c));
        assert(is_seam_safe(before, last.push(c))) by {
            if last.len() > 0 {
                assert(last.push(c)[0] == last[0]);
            }
        }
        lemma_words_concat(before, last.push(c));
        assert(layout.output.push(c) =~= before + last.push(c));
    }
}

/// One emission adds what it adds to the plainest rendering, word for word.
pub proof fn lemma_emit_words(layout: Layout, plain: Seq<char>, emission: Emission)
    requires
        layout.well_formed(),
        layout.is_detached(),
        words(layout.output) == words(plain),
        same_ending(layout.output, plain),
    ensures
        ({
            let result = layout.emit(emission);
            let rendered = spaced(plain, seq![emission]);
            &&& result.well_formed()
            &&& result.is_detached()
            &&& words(result.output) == words(rendered)
            &&& same_ending(result.output, rendered)
        }),
{
    let result = layout.emit(emission);
    let text = emission_text(emission);
    assert(seq![emission].drop_last() =~= Seq::<Emission>::empty());
    assert(spaced(plain, seq![emission]) == if emission is Merged {
        plain + text
    } else if text.len() == 0 {
        plain
    } else {
        plain.push(' ') + text
    }) by {
        reveal_with_fuel(spaced, 3);
    }
    reveal_strlit("..");
    reveal_strlit("-");
    reveal_strlit("...");
    match emission {
        Emission::Merged(c) => {
            lemma_merge_words(layout, c);
            lemma_words_push_same_ending(layout.output, plain, c);
            assert(plain + text =~= plain.push(c));
        },
        _ => {
            if text.len() == 0 {
                reveal(Layout::push);
            } else {
                match emission {
                    Emission::Fragment(content) => {
                        lemma_push_words(layout, content);
                    },
                    Emission::Concat => {
                        lemma_push_if_words(layout, text, breaks_concat(layout.last_fragment()));
                    },
                    Emission::Minus => {
                        lemma_push_if_words(layout, text, breaks_minus(layout.last_fragment()));
                    },
                    Emission::VariableArguments => {
                        lemma_push_if_words(
                            layout,
                            text,
                            breaks_variable_arguments(layout.last_fragment()),
                        );
                    },
                    Emission::String(literal) => {
                        if literal[0] == '[' {
                            lemma_push_if_words(
                                layout,
                                text,
                                breaks_long_string(layout.last_fragment()),
                            );
                        } else {
                            lemma_push_words(layout, literal);
                        }
                    },
                    Emission::Merged(_) => {},
                }
                lemma_words_push_other(plain, ' ');
                lemma_words_concat(plain.push(' '), text);
                assert((plain.push(' ') + text).last() == text.last());
                assert(result.output.last() == text.last());
            }
        },
    }
}

/// The words of the output are the words of the plainest rendering: no word
/// of the output holds characters of two fragments, and no fragment is cut.
pub proof fn lemma_emit_all_words(layout: Layout, emissions: Seq<Emission>)
    requires
        layout.well_formed(),
        layout.is_detached(),
    ensures
        layout.emit_all(emissions).well_formed(),
        layout.emit_all(emissions).is_detached(),
        words(layout.emit_all(emissions).output) == words(spaced(layout.output, emissions)),
        same_ending(layout.emit_all(emissions).output, spaced(layout.output, emissions)),
    decreases emissions.len(),
{
    reveal_with_fuel(Layout::emit_all, 2);
    if emissions.len() > 0 {
        let before = layout.emit_all(emissions.drop_last());
        let plain = spaced(layout.output, emissions.drop_last());
        lemma_emit_all_words(layout, emissions.drop_last());
        lemma_emit_words(before, plain, emissions.last());
        assert(seq![emissions.last()].drop_last() =~= Seq::<Emission>::empty());
        assert(spaced(plain, seq![emissions.last()]) == spaced(layout.output, emissions)) by {
            reveal_with_fuel(spaced, 3);
        }
    }
}

/// The text printed for a block holds the words of its fragments and no
/// others, whatever the column span.
pub proof fn lemma_block_words(column_span: nat, block: Block)
    ensures
        words(printed(column_span, block)) == words(spaced(Seq::empty(), block_emissions(block))),
{
    let start = Layout::empty(column_span);
    assert(start.before_last_fragment() =~= Seq::<char>::empty());
    lemma_emit_all_words(start, block_emissions(block));
}

/// The column span does not change the words of the text printed for a
/// block.
pub proof fn lemma_column_span_keeps_words(first: nat, second: nat, block: Block)
    ensures
        words(printed(first, block)) == words(printed(second, block)),
{
    lemma_block_words(first, block);
    lemma_block_words(second, block);
}

/// Whether `emission` would be misread if it were written directly behind
/// the character `last`: `..` and `...` behind a digit or a dot, `-` behind a
/// `-`, and a long-bracket string behind a `[`.
pub open spec fn is_hazard(emission: Emission, last: char) -> bool {
    match emission {
        Emission::Concat | Emission::VariableArguments => is_digit_char(last) || last == '.',
        Emission::Minus => last == '-',
        Emission::String(literal) => literal.len() > 0 && literal[0] == '[' && last == '[',
        _ => false,
    }
}

/// What would be misread directly behind the output is kept apart from it: by
/// a space where the space and the fragment fit on the line, and by a line
/// break where they do not.
pub proof fn lemma_hazard_is_kept_apart(layout: Layout, emission: Emission)
    requires
        layout.well_formed(),
        layout.output.len() > 0,
        is_hazard(emission, layout.output.last()),
    ensures
        layout.emit(emission).output == layout.output.push(
            if layout.fits(1 + emission_text(emission).len()) {
                ' '
            } else {
                '\n'
            },
        ) + emission_text(emission),
{
    reveal(Layout::push_if);
    assert(layout.last_fragment().last() == layout.output.last());
}

} // verus!
