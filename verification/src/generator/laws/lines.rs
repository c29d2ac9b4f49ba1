//! The count of the current line is exact as long as no fragment holds a line
//! break, and no line of the output is longer than the column span, unless a
//! fragment is.

use crate::generator::emission::{block_emissions, printed};
use crate::generator::laws::fragments::fragments;
use crate::generator::layout::{
    Emission, Layout, Separator, breaks_concat, breaks_long_string, breaks_minus,
    breaks_variable_arguments, emission_text,
};
use crate::generator::text::{
    column, is_single_line, lemma_column_bounds, lemma_last_line_is_single, lemma_lines_concat,
    lemma_lines_concat_bound, lemma_lines_push, lemma_widest_line_of_prefix,
    lemma_words_strip_trailing_spaces, strip_trailing_spaces, widest_line,
};
use crate::nodes::statements::Block;
use vstd::prelude::*;

verus! {

/// The larger of two lengths.
pub open spec fn longer(first: nat, second: nat) -> nat {
    if first >= second {
        first
    } else {
        second
    }
}

/// Whether an emission adds no line break of its own.
pub open spec fn is_single_line_emission(emission: Emission) -> bool {
    is_single_line(emission_text(emission))
}

/// Whether no emission of the sequence adds a line break of its own.
pub open spec fn are_single_line(emissions: Seq<Emission>) -> bool {
    forall|i: int| 0 <= i < emissions.len() ==> is_single_line_emission(#[trigger] emissions[i])
}

/// The length of the last fragment after `emission`, when it was `last`
/// before: a fragment that is pushed replaces the last one, and a character
/// that is merged makes it longer.
pub open spec fn last_length_with(last: nat, emission: Emission) -> nat {
    if emission is Merged {
        last + 1
    } else if emission_text(emission).len() == 0 {
        last
    } else {
        emission_text(emission).len()
    }
}

/// The length of the last fragment after `emissions`, when it was `last`
/// before them.
pub open spec fn last_length_after(last: nat, emissions: Seq<Emission>) -> nat
    decreases emissions.len(),
{
    if emissions.len() == 0 {
        last
    } else {
        last_length_with(last_length_after(last, emissions.drop_last()), emissions.last())
    }
}

/// The length of the longest fragment that stands last at some time while
/// `emissions` are emitted, the one of length `last` that stood there before
/// them included. The characters merged into a fragment count with it.
pub open spec fn widest_fragment(last: nat, emissions: Seq<Emission>) -> nat
    decreases emissions.len(),
{
    if emissions.len() == 0 {
        last
    } else {
        longer(
            widest_fragment(last, emissions.drop_last()),
            last_length_after(last, emissions),
        )
    }
}

/// The bound on the lines of the output after `emissions`: the longest line
/// that stood there before, the column span, or the widest fragment,
/// whichever is largest.
pub open spec fn line_bound(layout: Layout, emissions: Seq<Emission>) -> nat {
    longer(
        widest_line(layout.output),
        longer(layout.column_span, widest_fragment(layout.last_push_length, emissions)),
    )
}

impl Layout {
    /// The counted line length is no less than the true length of the last
    /// line of the output.
    pub open spec fn covers_column(self) -> bool {
        column(self.output) <= self.current_line_length
    }
}

/// What holds of the lines after an emission has taken the output from
/// `layout` to `result` and left a last fragment of `last` characters: the
/// count still covers the last line, and no line is longer than the longest
/// before, the column span or the last fragment.
pub open spec fn bounds_lines(layout: Layout, result: Layout, last: nat) -> bool {
    &&& result.well_formed()
    &&& result.covers_column()
    &&& result.column_span == layout.column_span
    &&& result.last_push_length == last
    &&& widest_line(result.output) <= longer(
        widest_line(layout.output),
        longer(layout.column_span, last),
    )
}

/// A fragment behind a separator makes the last line no longer than the
/// generator counts, and adds no line that is longer.
proof fn lemma_appended_bound(layout: Layout, separator: Separator, content: Seq<char>)
    requires
        layout.covers_column(),
    ensures
        ({
            let result = layout.separate(separator).append(content);
            &&& result.covers_column()
            &&& widest_line(result.output) <= longer(
                widest_line(layout.output),
                result.current_line_length,
            )
        }),
{
    let separated = layout.separate(separator);
    lemma_column_bounds(layout.output);
    match separator {
        Separator::Nothing => {},
        Separator::Space => {
            lemma_lines_push(layout.output, ' ');
        },
        Separator::NewLine => {
            lemma_lines_push(layout.output, '\n');
        },
    }
    lemma_lines_concat_bound(separated.output, content);
}

/// A plain push writes no line longer than the column span or the fragment.
pub proof fn lemma_push_bound(layout: Layout, content: Seq<char>)
    requires
        layout.well_formed(),
        layout.covers_column(),
        content.len() > 0,
    ensures
        bounds_lines(layout, layout.push(content), content.len()),
{
    reveal(Layout::push);
    lemma_appended_bound(layout, layout.separator_before(content[0], content.len()), content);
}

/// A push after a decision on the last fragment writes no line longer than
/// the column span or the fragment.
pub proof fn lemma_push_if_bound(layout: Layout, content: Seq<char>, break_needed: bool)
    requires
        layout.well_formed(),
        layout.covers_column(),
        content.len() > 0,
    ensures
        bounds_lines(layout, layout.push_if(content, break_needed), content.len()),
{
    reveal(Layout::push_if);
    lemma_appended_bound(layout, layout.separator_if(break_needed, content.len()), content);
}

/// A merge writes no line longer than the column span or the fragment with
/// the character merged into it.
pub proof fn lemma_merge_bound(layout: Layout, c: char)
    requires
        layout.well_formed(),
        layout.covers_column(),
    ensures
        bounds_lines(layout, layout.merge(c), layout.last_push_length + 1),
{
    reveal(Layout::merge);
    let result = layout.merge(c);
    lemma_column_bounds(layout.output);
    if layout.fits(1) {
        lemma_lines_push(layout.output, c);
    } else {
        let before = layout.before_last_fragment();
        let last = layout.last_fragment();
        let stripped = strip_trailing_spaces(before);
        lemma_words_strip_trailing_spaces(before);
        assert(result.output =~= stripped.push('\n') + last.push(c));
        lemma_lines_push(stripped, '\n');
        lemma_lines_concat_bound(stripped.push('\n'), last.push(c));
        assert(stripped =~= layout.output.take(stripped.len() as int));
        lemma_widest_line_of_prefix(layout.output, stripped.len() as int);
    }
}

/// One emission writes no line longer than the column span or the last
/// fragment, unless one stood there before.
pub proof fn lemma_emit_bound(layout: Layout, emission: Emission)
    requires
        layout.well_formed(),
        layout.covers_column(),
    ensures
        bounds_lines(
            layout,
            layout.emit(emission),
            last_length_with(layout.last_push_length, emission),
        ),
{
    let text = emission_text(emission);
    lemma_column_bounds(layout.output);
    match emission {
        Emission::Merged(c) => {
            lemma_merge_bound(layout, c);
        },
        Emission::Fragment(content) => {
            if content.len() > 0 {
                lemma_push_bound(layout, content);
            } else {
                reveal(Layout::push);
            }
        },
        Emission::Concat => {
            reveal_strlit("..");
            lemma_push_if_bound(layout, text, breaks_concat(layout.last_fragment()));
        },
        Emission::Minus => {
            reveal_strlit("-");
            lemma_push_if_bound(layout, text, breaks_minus(layout.last_fragment()));
        },
        Emission::VariableArguments => {
            reveal_strlit("...");
            lemma_push_if_bound(layout, text, breaks_variable_arguments(layout.last_fragment()));
        },
        Emission::String(literal) => {
            if literal.len() == 0 {
                reveal(Layout::push);
            } else if literal[0] == '[' {
                lemma_push_if_bound(layout, literal, breaks_long_string(layout.last_fragment()));
            } else {
                lemma_push_bound(layout, literal);
            }
        },
    }
}

/// No line of the output is longer than the column span, unless a fragment is
/// longer or a longer line stood there before: a line break is written
/// wherever the next fragment does not fit.
pub proof fn lemma_emit_all_bound(layout: Layout, emissions: Seq<Emission>)
    requires
        layout.well_formed(),
        layout.covers_column(),
    ensures
        layout.emit_all(emissions).well_formed(),
        layout.emit_all(emissions).covers_column(),
        layout.emit_all(emissions).column_span == layout.column_span,
        layout.emit_all(emissions).last_push_length == last_length_after(
            layout.last_push_length,
            emissions,
        ),
        widest_line(layout.emit_all(emissions).output) <= line_bound(layout, emissions),
    decreases emissions.len(),
{
    reveal_with_fuel(Layout::emit_all, 2);
    if emissions.len() > 0 {
        lemma_emit_all_bound(layout, emissions.drop_last());
        lemma_emit_bound(layout.emit_all(emissions.drop_last()), emissions.last());
    } else {
        lemma_column_bounds(layout.output);
    }
}

/// A fragment without a line break behind a separator makes the last line as
/// long as the generator counts.
proof fn lemma_appended_column(layout: Layout, separator: Separator, content: Seq<char>)
    requires
        layout.tracks_column(),
        is_single_line(content),
    ensures
        layout.separate(separator).append(content).tracks_column(),
{
    match separator {
        Separator::Nothing => {},
        Separator::Space => {
            lemma_lines_push(layout.output, ' ');
        },
        Separator::NewLine => {
            lemma_lines_push(layout.output, '\n');
        },
    }
    lemma_lines_concat(layout.separate(separator).output, content);
}

/// One emission without a line break keeps the count of the current line
/// exact.
pub proof fn lemma_emit_column(layout: Layout, emission: Emission)
    requires
        layout.well_formed(),
        layout.tracks_column(),
        is_single_line_emission(emission),
    ensures
        layout.emit(emission).tracks_column(),
{
    let text = emission_text(emission);
    reveal(Layout::push);
    reveal(Layout::push_if);
    match emission {
        Emission::Merged(c) => {
            reveal(Layout::merge);
            assert(text[0] == c);
            if layout.fits(1) {
                lemma_lines_push(layout.output, c);
            } else {
                let last = layout.last_fragment();
                let stripped = strip_trailing_spaces(layout.before_last_fragment());
                lemma_last_line_is_single(layout.output, layout.last_push_length as int);
                assert(is_single_line(last.push(c)));
                assert(layout.merge(c).output =~= stripped.push('\n') + last.push(c));
                lemma_lines_push(stripped, '\n');
                lemma_lines_concat(stripped.push('\n'), last.push(c));
            }
        },
        Emission::Fragment(content) => {
            if content.len() > 0 {
                lemma_appended_column(
                    layout,
                    layout.separator_before(content[0], content.len()),
                    content,
                );
            }
        },
        Emission::Concat => {
            lemma_appended_column(
                layout,
                layout.separator_if(breaks_concat(layout.last_fragment()), text.len()),
                text,
            );
        },
        Emission::Minus => {
            lemma_appended_column(
                layout,
                layout.separator_if(breaks_minus(layout.last_fragment()), text.len()),
                text,
            );
        },
        Emission::VariableArguments => {
            lemma_appended_column(
                layout,
                layout.separator_if(breaks_variable_arguments(layout.last_fragment()), text.len()),
                text,
            );
        },
        Emission::String(literal) => {
            if literal.len() == 0 {
            } else if literal[0] == '[' {
                lemma_appended_column(
                    layout,
                    layout.separator_if(breaks_long_string(layout.last_fragment()), literal.len()),
                    literal,
                );
            } else {
                lemma_appended_column(
                    layout,
                    layout.separator_before(literal[0], literal.len()),
                    literal,
                );
            }
        },
    }
}

/// The count of the current line stays exact as long as no fragment holds a
/// line break: it is the number of characters behind the last line break of
/// the output.
pub proof fn lemma_emit_all_column(layout: Layout, emissions: Seq<Emission>)
    requires
        layout.well_formed(),
        layout.tracks_column(),
        are_single_line(emissions),
    ensures
        layout.emit_all(emissions).tracks_column(),
    decreases emissions.len(),
{
    reveal_with_fuel(Layout::emit_all, 2);
    if emissions.len() > 0 {
        assert forall|i: int| 0 <= i < emissions.drop_last().len() implies is_single_line_emission(
            #[trigger] emissions.drop_last()[i],
        ) by {
            assert(emissions.drop_last()[i] == emissions[i]);
        }
        lemma_emit_all_column(layout, emissions.drop_last());
        lemma_emit_all_bound(layout, emissions.drop_last());
        assert(is_single_line_emission(emissions[emissions.len() - 1]));
        lemma_emit_column(layout.emit_all(emissions.drop_last()), emissions.last());
    }
}

/// The length of the longest of `pieces`.
pub open spec fn longest(pieces: Seq<Seq<char>>) -> nat
    decreases pieces.len(),
{
    if pieces.len() == 0 {
        0
    } else {
        longer(longest(pieces.drop_last()), pieces.last().len())
    }
}

/// The widest fragment is the longest of the fragments that the emissions
/// leave in the output, and the last fragment is as long as the generator
/// counts.
pub proof fn lemma_widest_fragment_is_longest(emissions: Seq<Emission>)
    ensures
        widest_fragment(0, emissions) == longest(fragments(emissions)),
        last_length_after(0, emissions) == if fragments(emissions).len() > 0 {
            fragments(emissions).last().len()
        } else {
            0
        },
    decreases emissions.len(),
{
    if emissions.len() > 0 {
        lemma_widest_fragment_is_longest(emissions.drop_last());
        let pieces = fragments(emissions.drop_last());
        let text = emission_text(emissions.last());
        if text.len() == 0 {
        } else if emissions.last() is Merged && pieces.len() > 0 {
            let piece = pieces.last() + text;
            assert(pieces.drop_last().push(piece).drop_last() =~= pieces.drop_last());
        } else {
            assert(pieces.push(text).drop_last() =~= pieces);
        }
    }
}

/// No line of the text printed for a block is longer than the column span,
/// unless a fragment of the block is: the longest line is no longer than the
/// span or the longest fragment, whichever is larger. The characters merged
/// into a fragment count with it.
pub proof fn lemma_block_lines(column_span: nat, block: Block)
    ensures
        widest_line(printed(column_span, block)) <= longer(
            column_span,
            longest(fragments(block_emissions(block))),
        ),
{
    lemma_emit_all_bound(Layout::empty(column_span), block_emissions(block));
    lemma_widest_fragment_is_longest(block_emissions(block));
}

/// While a block is printed, the generator counts the current line exactly,
/// as long as no fragment of the block holds a line break.
pub proof fn lemma_block_column(column_span: nat, block: Block)
    requires
        are_single_line(block_emissions(block)),
    ensures
        Layout::empty(column_span).emit_all(block_emissions(block)).tracks_column(),
{
    lemma_emit_all_column(Layout::empty(column_span), block_emissions(block));
}

} // verus!
