//! Every emission leaves the generator in a state that the next one can
//! start from.

use crate::generator::layout::{
    Emission, Layout, Separator, breaks_concat, breaks_long_string, breaks_minus,
    breaks_variable_arguments, emission_text,
};
use crate::generator::text::strip_trailing_spaces;
use vstd::prelude::*;

verus! {

/// A fragment behind a separator leaves the generator with an open line, and
/// stands at the end of the output as it was pushed.
proof fn lemma_appended_well_formed(layout: Layout, separator: Separator, content: Seq<char>)
    requires
        layout.well_formed(),
        content.len() > 0,
    ensures
        ({
            let result = layout.separate(separator).append(content);
            &&& result.is_line_open()
            &&& result.column_span == layout.column_span
            &&& result.last_fragment() == content
            &&& result.output.take(layout.output.len() as int) == layout.output
        }),
{
    let result = layout.separate(separator).append(content);
    assert(result.last_fragment() =~= content);
    assert(result.output.take(layout.output.len() as int) =~= layout.output);
}

/// A push of nothing changes nothing.
pub proof fn lemma_push_of_nothing(layout: Layout)
    ensures
        layout.push(Seq::empty()) == layout,
{
    reveal(Layout::push);
}

/// A plain push of a fragment leaves the generator with an open line. The
/// output is what it was, with the fragment at its end, as it was pushed.
pub proof fn lemma_push_state(layout: Layout, content: Seq<char>)
    requires
        layout.well_formed(),
        content.len() > 0,
    ensures
        layout.push(content).is_line_open(),
        layout.push(content).column_span == layout.column_span,
        layout.push(content).last_fragment() == content,
        layout.push(content).output.take(layout.output.len() as int) == layout.output,
{
    reveal(Layout::push);
    lemma_appended_well_formed(
        layout,
        layout.separator_before(content[0], content.len()),
        content,
    );
}

/// A push after a decision on the last fragment leaves the generator with an
/// open line. The output is what it was, with the fragment at its end, as it
/// was pushed.
pub proof fn lemma_push_if_state(layout: Layout, content: Seq<char>, break_needed: bool)
    requires
        layout.well_formed(),
        content.len() > 0,
    ensures
        layout.push_if(content, break_needed).is_line_open(),
        layout.push_if(content, break_needed).column_span == layout.column_span,
        layout.push_if(content, break_needed).last_fragment() == content,
        layout.push_if(content, break_needed).output.take(layout.output.len() as int)
            == layout.output,
{
    reveal(Layout::push_if);
    lemma_appended_well_formed(
        layout,
        layout.separator_if(break_needed, content.len()),
        content,
    );
}

/// A merge leaves the generator with an open line, and makes the last
/// fragment longer by the character. Where the character fits, nothing else
/// changes. Where it does not, the last fragment moves as a whole: the line
/// break takes the place of the spaces before it, and after it the line holds
/// the last fragment and nothing else.
pub proof fn lemma_merge_state(layout: Layout, c: char)
    requires
        layout.well_formed(),
    ensures
        layout.merge(c).is_line_open(),
        layout.merge(c).column_span == layout.column_span,
        layout.merge(c).last_fragment() == layout.last_fragment().push(c),
        layout.fits(1) ==> layout.merge(c).output == layout.output.push(c),
        !layout.fits(1) ==> layout.merge(c).before_last_fragment() == strip_trailing_spaces(
            layout.before_last_fragment(),
        ).push('\n'),
        !layout.fits(1) ==> layout.merge(c).current_line_length == layout.merge(
            c,
        ).last_push_length,
{
    reveal(Layout::merge);
    assert(layout.merge(c).last_fragment() =~= layout.last_fragment().push(c));
    if !layout.fits(1) {
        assert(layout.merge(c).before_last_fragment() =~= strip_trailing_spaces(
            layout.before_last_fragment(),
        ).push('\n'));
    }
}

/// Every emission leaves the generator empty or with an open line.
pub proof fn lemma_emit_well_formed(layout: Layout, emission: Emission)
    requires
        layout.well_formed(),
    ensures
        layout.emit(emission).well_formed(),
        layout.emit(emission).column_span == layout.column_span,
{
    let text = emission_text(emission);
    match emission {
        Emission::Merged(c) => {
            lemma_merge_state(layout, c);
        },
        Emission::Fragment(content) => {
            reveal(Layout::push);
            if content.len() > 0 {
                lemma_appended_well_formed(
                    layout,
                    layout.separator_before(content[0], content.len()),
                    content,
                );
            }
        },
        Emission::Concat => {
            reveal(Layout::push_if);
            reveal_strlit("..");
            lemma_appended_well_formed(
                layout,
                layout.separator_if(breaks_concat(layout.last_fragment()), text.len()),
                text,
            );
        },
        Emission::Minus => {
            reveal(Layout::push_if);
            reveal_strlit("-");
            lemma_appended_well_formed(
                layout,
                layout.separator_if(breaks_minus(layout.last_fragment()), text.len()),
                text,
            );
        },
        Emission::VariableArguments => {
            reveal(Layout::push_if);
            reveal_strlit("...");
            lemma_appended_well_formed(
                layout,
                layout.separator_if(breaks_variable_arguments(layout.last_fragment()), text.len()),
                text,
            );
        },
        Emission::String(literal) => {
            reveal(Layout::push);
            reveal(Layout::push_if);
            if literal.len() == 0 {
            } else if literal[0] == '[' {
                lemma_appended_well_formed(
                    layout,
                    layout.separator_if(breaks_long_string(layout.last_fragment()), literal.len()),
                    literal,
                );
            } else {
                lemma_appended_well_formed(
                    layout,
                    layout.separator_before(literal[0], literal.len()),
                    literal,
                );
            }
        },
    }
}

/// Every sequence of emissions leaves the generator empty or with an open
/// line, and leaves the column span as it was.
pub proof fn lemma_emit_all_well_formed(layout: Layout, emissions: Seq<Emission>)
    requires
        layout.well_formed(),
    ensures
        layout.emit_all(emissions).well_formed(),
        layout.emit_all(emissions).column_span == layout.column_span,
    decreases emissions.len(),
{
    reveal_with_fuel(Layout::emit_all, 2);
    if emissions.len() > 0 {
        lemma_emit_all_well_formed(layout, emissions.drop_last());
        lemma_emit_well_formed(layout.emit_all(emissions.drop_last()), emissions.last());
    }
}

} // verus!
