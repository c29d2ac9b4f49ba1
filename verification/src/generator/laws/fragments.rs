//! The output is the fragments in order, each kept whole, with only spaces
//! and line breaks between them.

use crate::generator::emission::{block_emissions, printed};
use crate::generator::layout::{
    Emission, Layout, Separator, breaks_concat, breaks_long_string, breaks_minus,
    breaks_variable_arguments, emission_text,
};
use crate::generator::text::{is_blank, strip_trailing_spaces};
use crate::nodes::statements::Block;
use vstd::prelude::*;

verus! {

/// Whether `text` holds spaces and line breaks only.
pub open spec fn is_blank_text(text: Seq<char>) -> bool {
    forall|i: int| 0 <= i < text.len() ==> is_blank(#[trigger] text[i])
}

/// Whether `text` is empty or ends with a character that is no space.
pub open spec fn keeps_its_end(text: Seq<char>) -> bool {
    text.len() == 0 || text.last() != ' '
}

/// Whether no emission of the sequence ends with a space. The spaces at the
/// end of a fragment would be lost when the fragment behind it is relocated.
pub open spec fn keep_their_ends(emissions: Seq<Emission>) -> bool {
    forall|i: int|
        0 <= i < emissions.len() ==> keeps_its_end(emission_text(#[trigger] emissions[i]))
}

/// The fragments that stand in the output after `emission`, when `pieces`
/// stood there before: a push of a text that is not empty begins a fragment,
/// and a character that is merged makes the last fragment longer, or begins
/// one where there is none.
pub open spec fn with_emission(pieces: Seq<Seq<char>>, emission: Emission) -> Seq<Seq<char>> {
    let text = emission_text(emission);
    if text.len() == 0 {
        pieces
    } else if emission is Merged && pieces.len() > 0 {
        pieces.drop_last().push(pieces.last() + text)
    } else {
        pieces.push(text)
    }
}

/// The fragments that `emissions` leave in the output, in order.
pub open spec fn fragments(emissions: Seq<Emission>) -> Seq<Seq<char>>
    decreases emissions.len(),
{
    if emissions.len() == 0 {
        Seq::empty()
    } else {
        with_emission(fragments(emissions.drop_last()), emissions.last())
    }
}

/// The text that holds `gaps[i]` before `pieces[i]`, for each `i` in order.
pub open spec fn woven(gaps: Seq<Seq<char>>, pieces: Seq<Seq<char>>) -> Seq<char>
    decreases pieces.len(),
{
    if pieces.len() == 0 {
        Seq::empty()
    } else {
        woven(gaps.drop_last(), pieces.drop_last()) + gaps.last() + pieces.last()
    }
}

/// Whether `gaps` are what a generator may write before the pieces of
/// `pieces`: one for each piece, of spaces and line breaks only.
pub open spec fn are_gaps(gaps: Seq<Seq<char>>, pieces: Seq<Seq<char>>) -> bool {
    &&& gaps.len() == pieces.len()
    &&& forall|i: int| 0 <= i < gaps.len() ==> is_blank_text(#[trigger] gaps[i])
}

/// Whether each piece holds a character and ends with one that is no space.
pub open spec fn are_whole(pieces: Seq<Seq<char>>) -> bool {
    forall|i: int|
        0 <= i < pieces.len() ==> (#[trigger] pieces[i]).len() > 0 && pieces[i].last() != ' '
}

/// Whether the output of `layout` is `pieces` behind `gaps`, with the last
/// piece as the last fragment.
pub open spec fn is_woven(layout: Layout, gaps: Seq<Seq<char>>, pieces: Seq<Seq<char>>) -> bool {
    &&& layout.well_formed()
    &&& are_gaps(gaps, pieces)
    &&& are_whole(pieces)
    &&& layout.output == woven(gaps, pieces)
    &&& pieces.len() == 0 <==> layout.is_empty()
    &&& pieces.len() > 0 ==> layout.last_fragment() == pieces.last()
}

/// The characters of a separator.
pub open spec fn separator_text(separator: Separator) -> Seq<char> {
    match separator {
        Separator::Nothing => Seq::empty(),
        Separator::Space => seq![' '],
        Separator::NewLine => seq!['\n'],
    }
}

/// Behind a text that keeps its end, only the spaces of what follows are
/// stripped.
proof fn lemma_strip_behind_whole(whole: Seq<char>, gap: Seq<char>)
    requires
        keeps_its_end(whole),
        is_blank_text(gap),
    ensures
        strip_trailing_spaces(whole + gap) == whole + strip_trailing_spaces(gap),
        is_blank_text(strip_trailing_spaces(gap)),
    decreases gap.len(),
{
    if gap.len() == 0 {
        assert(whole + gap =~= whole);
        assert(whole + strip_trailing_spaces(gap) =~= whole);
    } else if gap.last() == ' ' {
        assert((whole + gap).drop_last() =~= whole + gap.drop_last());
        assert forall|i: int| 0 <= i < gap.drop_last().len() implies is_blank(
            #[trigger] gap.drop_last()[i],
        ) by {
            assert(gap.drop_last()[i] == gap[i]);
        }
        lemma_strip_behind_whole(whole, gap.drop_last());
    } else {
        assert((whole + gap).last() == gap.last());
    }
}

/// One more piece behind one more gap.
proof fn lemma_woven_push(
    gaps: Seq<Seq<char>>,
    pieces: Seq<Seq<char>>,
    gap: Seq<char>,
    piece: Seq<char>,
)
    requires
        are_gaps(gaps, pieces),
        are_whole(pieces),
        is_blank_text(gap),
        piece.len() > 0,
        piece.last() != ' ',
    ensures
        are_gaps(gaps.push(gap), pieces.push(piece)),
        are_whole(pieces.push(piece)),
        woven(gaps.push(gap), pieces.push(piece)) == woven(gaps, pieces) + gap + piece,
{
    let more_gaps = gaps.push(gap);
    let more_pieces = pieces.push(piece);
    assert(more_gaps.drop_last() =~= gaps);
    assert(more_pieces.drop_last() =~= pieces);
    assert forall|i: int| 0 <= i < more_gaps.len() implies is_blank_text(
        #[trigger] more_gaps[i],
    ) by {
        if i < gaps.len() {
            assert(more_gaps[i] == gaps[i]);
        }
    }
    assert forall|i: int| 0 <= i < more_pieces.len() implies (#[trigger] more_pieces[i]).len() > 0
        && more_pieces[i].last() != ' ' by {
        if i < pieces.len() {
            assert(more_pieces[i] == pieces[i]);
        }
    }
}

/// The pieces but the last, behind their gaps.
proof fn lemma_woven_drop_last(gaps: Seq<Seq<char>>, pieces: Seq<Seq<char>>)
    requires
        are_gaps(gaps, pieces),
        are_whole(pieces),
        pieces.len() > 0,
    ensures
        are_gaps(gaps.drop_last(), pieces.drop_last()),
        are_whole(pieces.drop_last()),
        is_blank_text(gaps.last()),
        keeps_its_end(woven(gaps.drop_last(), pieces.drop_last())),
        woven(gaps, pieces) == woven(gaps.drop_last(), pieces.drop_last()) + gaps.last()
            + pieces.last(),
{
    let fewer_gaps = gaps.drop_last();
    let fewer_pieces = pieces.drop_last();
    assert forall|i: int| 0 <= i < fewer_gaps.len() implies is_blank_text(
        #[trigger] fewer_gaps[i],
    ) by {
        assert(fewer_gaps[i] == gaps[i]);
    }
    assert forall|i: int| 0 <= i < fewer_pieces.len() implies (#[trigger] fewer_pieces[i]).len() > 0
        && fewer_pieces[i].last() != ' ' by {
        assert(fewer_pieces[i] == pieces[i]);
    }
    assert(is_blank_text(gaps[gaps.len() - 1]));
    if fewer_pieces.len() > 0 {
        assert(fewer_pieces[fewer_pieces.len() - 1].len() > 0);
        assert(woven(fewer_gaps, fewer_pieces).last() == fewer_pieces.last().last());
    }
}

/// A fragment behind a separator is one more piece behind one more gap.
proof fn lemma_appended_woven(
    layout: Layout,
    gaps: Seq<Seq<char>>,
    pieces: Seq<Seq<char>>,
    separator: Separator,
    content: Seq<char>,
)
    requires
        is_woven(layout, gaps, pieces),
        content.len() > 0,
        content.last() != ' ',
    ensures
        is_woven(
            layout.separate(separator).append(content),
            gaps.push(separator_text(separator)),
            pieces.push(content),
        ),
{
    let result = layout.separate(separator).append(content);
    let gap = separator_text(separator);
    lemma_woven_push(gaps, pieces, gap, content);
    assert(result.output =~= layout.output + gap + content);
    assert(result.last_fragment() =~= content);
    assert(pieces.push(content).last() == content);
}

/// A character that is merged makes the last piece longer, or is the first
/// piece. Where the last fragment is relocated, only the gap before the last
/// piece changes.
proof fn lemma_merge_woven(
    layout: Layout,
    gaps: Seq<Seq<char>>,
    pieces: Seq<Seq<char>>,
    c: char,
) -> (more_gaps: Seq<Seq<char>>)
    requires
        is_woven(layout, gaps, pieces),
        c != ' ',
    ensures
        is_woven(
            layout.merge(c),
            more_gaps,
            if pieces.len() > 0 {
                pieces.drop_last().push(pieces.last().push(c))
            } else {
                seq![seq![c]]
            },
        ),
{
    reveal(Layout::merge);
    let result = layout.merge(c);
    if pieces.len() > 0 {
        let whole = woven(gaps.drop_last(), pieces.drop_last());
        let piece = pieces.last().push(c);
        lemma_woven_drop_last(gaps, pieces);
        assert(layout.before_last_fragment() =~= whole + gaps.last()) by {
            assert(layout.output =~= (whole + gaps.last()) + pieces.last());
        }
        let gap = if layout.fits(1) {
            gaps.last()
        } else {
            strip_trailing_spaces(gaps.last()).push('\n')
        };
        if !layout.fits(1) {
            lemma_strip_behind_whole(whole, gaps.last());
            assert forall|i: int| 0 <= i < gap.len() implies is_blank(#[trigger] gap[i]) by {
                if i < gap.len() - 1 {
                    assert(gap[i] == strip_trailing_spaces(gaps.last())[i]);
                }
            }
        }
        lemma_woven_push(gaps.drop_last(), pieces.drop_last(), gap, piece);
        assert(result.output =~= whole + gap + piece);
        assert(result.last_fragment() =~= piece);
        assert(pieces.drop_last().push(piece).last() == piece);
        gaps.drop_last().push(gap)
    } else {
        let gap = if layout.fits(1) {
            Seq::<char>::empty()
        } else {
            seq!['\n']
        };
        let piece = seq![c];
        lemma_woven_push(Seq::empty(), Seq::empty(), gap, piece);
        assert(layout.before_last_fragment() =~= Seq::<char>::empty());
        assert(layout.last_fragment() =~= Seq::<char>::empty());
        assert(result.output =~= Seq::<char>::empty() + gap + piece);
        assert(result.last_fragment() =~= piece);
        assert(Seq::<Seq<char>>::empty().push(piece) =~= seq![piece]);
        assert(seq![piece].last() == piece);
        Seq::<Seq<char>>::empty().push(gap)
    }
}

/// Every emission that keeps its end leaves the output woven of the
/// fragments.
proof fn lemma_emit_woven(
    layout: Layout,
    gaps: Seq<Seq<char>>,
    pieces: Seq<Seq<char>>,
    emission: Emission,
) -> (more_gaps: Seq<Seq<char>>)
    requires
        is_woven(layout, gaps, pieces),
        keeps_its_end(emission_text(emission)),
    ensures
        is_woven(layout.emit(emission), more_gaps, with_emission(pieces, emission)),
{
    let text = emission_text(emission);
    match emission {
        Emission::Merged(c) => {
            assert(text[0] == c);
            if pieces.len() > 0 {
                assert(pieces.last() + text =~= pieces.last().push(c));
            } else {
                assert(Seq::<Seq<char>>::empty().push(text) =~= seq![seq![c]]);
                assert(pieces =~= Seq::<Seq<char>>::empty());
            }
            lemma_merge_woven(layout, gaps, pieces, c)
        },
        Emission::Fragment(content) => {
            reveal(Layout::push);
            if content.len() > 0 {
                let separator = layout.separator_before(content[0], content.len());
                lemma_appended_woven(layout, gaps, pieces, separator, content);
                gaps.push(separator_text(separator))
            } else {
                gaps
            }
        },
        Emission::Concat => {
            reveal(Layout::push_if);
            reveal_strlit("..");
            let separator = layout.separator_if(breaks_concat(layout.last_fragment()), text.len());
            lemma_appended_woven(layout, gaps, pieces, separator, text);
            gaps.push(separator_text(separator))
        },
        Emission::Minus => {
            reveal(Layout::push_if);
            reveal_strlit("-");
            let separator = layout.separator_if(breaks_minus(layout.last_fragment()), text.len());
            lemma_appended_woven(layout, gaps, pieces, separator, text);
            gaps.push(separator_text(separator))
        },
        Emission::VariableArguments => {
            reveal(Layout::push_if);
            reveal_strlit("...");
            let separator = layout.separator_if(
                breaks_variable_arguments(layout.last_fragment()),
                text.len(),
            );
            lemma_appended_woven(layout, gaps, pieces, separator, text);
            gaps.push(separator_text(separator))
        },
        Emission::String(literal) => {
            reveal(Layout::push);
            reveal(Layout::push_if);
            if literal.len() == 0 {
                gaps
            } else {
                let separator = if literal[0] == '[' {
                    layout.separator_if(breaks_long_string(layout.last_fragment()), literal.len())
                } else {
                    layout.separator_before(literal[0], literal.len())
                };
                lemma_appended_woven(layout, gaps, pieces, separator, literal);
                gaps.push(separator_text(separator))
            }
        },
    }
}

/// The output is woven of the fragments of the emissions, whatever the
/// emissions are, as long as each keeps its end.
proof fn lemma_emit_all_woven(column_span: nat, emissions: Seq<Emission>) -> (gaps: Seq<
    Seq<char>,
>)
    requires
        keep_their_ends(emissions),
    ensures
        is_woven(Layout::empty(column_span).emit_all(emissions), gaps, fragments(emissions)),
    decreases emissions.len(),
{
    reveal_with_fuel(Layout::emit_all, 2);
    if emissions.len() == 0 {
        Seq::empty()
    } else {
        assert forall|i: int| 0 <= i < emissions.drop_last().len() implies keeps_its_end(
            emission_text(#[trigger] emissions.drop_last()[i]),
        ) by {
            assert(emissions.drop_last()[i] == emissions[i]);
        }
        let gaps = lemma_emit_all_woven(column_span, emissions.drop_last());
        assert(keeps_its_end(emission_text(emissions[emissions.len() - 1])));
        lemma_emit_woven(
            Layout::empty(column_span).emit_all(emissions.drop_last()),
            gaps,
            fragments(emissions.drop_last()),
            emissions.last(),
        )
    }
}

/// The output is the fragments in order, each kept whole, with only spaces
/// and line breaks between them: a fragment is never cut, and what is merged
/// into it stays attached to it. This holds as long as no fragment ends with
/// a space.
pub proof fn lemma_fragments_are_kept_whole(column_span: nat, emissions: Seq<Emission>) -> (gaps:
    Seq<Seq<char>>)
    requires
        keep_their_ends(emissions),
    ensures
        are_gaps(gaps, fragments(emissions)),
        Layout::empty(column_span).emit_all(emissions).output == woven(
            gaps,
            fragments(emissions),
        ),
{
    lemma_emit_all_woven(column_span, emissions)
}

/// The text printed for a block is its fragments in order, each kept whole,
/// with only spaces and line breaks between them, as long as no fragment ends
/// with a space.
pub proof fn lemma_block_fragments_are_kept_whole(column_span: nat, block: Block) -> (gaps: Seq<
    Seq<char>,
>)
    requires
        keep_their_ends(block_emissions(block)),
    ensures
        are_gaps(gaps, fragments(block_emissions(block))),
        printed(column_span, block) == woven(gaps, fragments(block_emissions(block))),
{
    lemma_emit_all_woven(column_span, block_emissions(block))
}

} // verus!
