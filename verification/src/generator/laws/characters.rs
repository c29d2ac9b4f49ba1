//! The output holds the characters of the fragments and, besides them, only
//! spaces and line breaks.

use crate::generator::emission::{block_emissions, printed};
use crate::generator::laws::states::lemma_emit_all_well_formed;
use crate::generator::layout::{
    Emission, Layout, Separator, breaks_concat, breaks_long_string, breaks_minus,
    breaks_variable_arguments, emission_text,
};
use crate::generator::text::{
    lemma_visible_concat, lemma_visible_push, lemma_visible_strip_trailing_spaces,
    strip_trailing_spaces, visible,
};
use crate::nodes::statements::Block;
use vstd::prelude::*;

verus! {

/// The characters of `emissions`, in order, with nothing between them.
pub open spec fn emitted_text(emissions: Seq<Emission>) -> Seq<char>
    decreases emissions.len(),
{
    if emissions.len() == 0 {
        Seq::empty()
    } else {
        emitted_text(emissions.drop_last()) + emission_text(emissions.last())
    }
}

/// Behind a separator, a fragment adds its characters to the output, and
/// besides them at most a space or a line break.
proof fn lemma_appended_visible(layout: Layout, separator: Separator, content: Seq<char>)
    ensures
        visible(layout.separate(separator).append(content).output) == visible(layout.output)
            + visible(content),
{
    match separator {
        Separator::Nothing => {},
        Separator::Space => {
            lemma_visible_push(layout.output, ' ');
        },
        Separator::NewLine => {
            lemma_visible_push(layout.output, '\n');
        },
    }
    lemma_visible_concat(layout.separate(separator).output, content);
}

/// One emission adds its characters to the output, and besides them only
/// spaces and line breaks; the spaces that a relocation removes are the only
/// characters that ever leave the output.
pub proof fn lemma_emit_visible(layout: Layout, emission: Emission)
    requires
        layout.well_formed(),
    ensures
        visible(layout.emit(emission).output) == visible(layout.output) + visible(
            emission_text(emission),
        ),
{
    reveal(Layout::push);
    reveal(Layout::push_if);
    reveal(Layout::merge);
    let text = emission_text(emission);
    match emission {
        Emission::Merged(c) => {
            assert(text =~= Seq::<char>::empty().push(c));
            lemma_visible_push(Seq::empty(), c);
            if layout.fits(1) {
                lemma_visible_push(layout.output, c);
                assert(visible(layout.output).push(c) =~= visible(layout.output) + seq![c]);
                assert(visible(layout.output) + Seq::<char>::empty() =~= visible(layout.output));
            } else {
                let before = layout.before_last_fragment();
                let last = layout.last_fragment();
                let stripped = strip_trailing_spaces(before);
                assert(layout.output =~= before + last);
                lemma_visible_concat(before, last);
                lemma_visible_strip_trailing_spaces(before);
                lemma_visible_push(stripped, '\n');
                assert(layout.emit(emission).output =~= stripped.push('\n') + last + text);
                lemma_visible_concat(stripped.push('\n'), last);
                lemma_visible_concat(stripped.push('\n') + last, text);
                assert(visible(before) + visible(last) + visible(text) =~= visible(
                    layout.output,
                ) + visible(text));
            }
        },
        Emission::Fragment(content) => {
            if content.len() > 0 {
                lemma_appended_visible(
                    layout,
                    layout.separator_before(content[0], content.len()),
                    content,
                );
            } else {
                assert(visible(layout.output) + visible(content) =~= visible(layout.output));
            }
        },
        Emission::Concat => {
            lemma_appended_visible(
                layout,
                layout.separator_if(breaks_concat(layout.last_fragment()), text.len()),
                text,
            );
        },
        Emission::Minus => {
            lemma_appended_visible(
                layout,
                layout.separator_if(breaks_minus(layout.last_fragment()), text.len()),
                text,
            );
        },
        Emission::VariableArguments => {
            lemma_appended_visible(
                layout,
                layout.separator_if(breaks_variable_arguments(layout.last_fragment()), text.len()),
                text,
            );
        },
        Emission::String(literal) => {
            if literal.len() == 0 {
                assert(visible(layout.output) + visible(literal) =~= visible(layout.output));
            } else if literal[0] == '[' {
                lemma_appended_visible(
                    layout,
                    layout.separator_if(breaks_long_string(layout.last_fragment()), literal.len()),
                    literal,
                );
            } else {
                lemma_appended_visible(
                    layout,
                    layout.separator_before(literal[0], literal.len()),
                    literal,
                );
            }
        },
    }
}

/// The output holds the characters of the emissions, in order, and besides
/// them only spaces and line breaks: no character is lost, moved or made up.
pub proof fn lemma_emit_all_visible(layout: Layout, emissions: Seq<Emission>)
    requires
        layout.well_formed(),
    ensures
        visible(layout.emit_all(emissions).output) == visible(layout.output) + visible(
            emitted_text(emissions),
        ),
    decreases emissions.len(),
{
    reveal_with_fuel(Layout::emit_all, 2);
    if emissions.len() == 0 {
        assert(visible(layout.output) + visible(emitted_text(emissions)) =~= visible(
            layout.output,
        ));
    } else {
        let before = layout.emit_all(emissions.drop_last());
        lemma_emit_all_visible(layout, emissions.drop_last());
        lemma_emit_all_well_formed(layout, emissions.drop_last());
        lemma_emit_visible(before, emissions.last());
        lemma_visible_concat(
            emitted_text(emissions.drop_last()),
            emission_text(emissions.last()),
        );
        assert(visible(layout.output) + visible(emitted_text(emissions.drop_last())) + visible(
            emission_text(emissions.last()),
        ) =~= visible(layout.output) + (visible(emitted_text(emissions.drop_last())) + visible(
            emission_text(emissions.last()),
        )));
    }
}

/// The text printed for a block holds the characters of its fragments, in
/// order, and besides them only spaces and line breaks.
pub proof fn lemma_block_visible(column_span: nat, block: Block)
    ensures
        visible(printed(column_span, block)) == visible(emitted_text(block_emissions(block))),
{
    lemma_emit_all_visible(Layout::empty(column_span), block_emissions(block));
    assert(visible(Seq::<char>::empty()) + visible(emitted_text(block_emissions(block)))
        =~= visible(emitted_text(block_emissions(block))));
}

/// The column span changes only the spaces and the line breaks of the text
/// printed for a block.
pub proof fn lemma_column_span_keeps_visible(first: nat, second: nat, block: Block)
    ensures
        visible(printed(first, block)) == visible(printed(second, block)),
{
    lemma_block_visible(first, block);
    lemma_block_visible(second, block);
}

} // verus!
