//! The layout model: what the generator's buffer holds after each primitive
//! operation, as a pure function of what it held before.

use crate::generator::text::{column, is_digit_char, is_word_char, strip_trailing_spaces};
use vstd::prelude::*;

verus! {

/// What is written between the text already emitted and the next fragment.
pub enum Separator {
    Nothing,
    Space,
    NewLine,
}

/// The abstract state of a generator.
pub struct Layout {
    /// The soft upper bound on the length of a line.
    pub column_span: nat,
    /// The length that the generator has counted for the current line.
    pub current_line_length: nat,
    /// The length of the most recent fragment; 0 before the first push.
    pub last_push_length: nat,
    /// The text emitted so far.
    pub output: Seq<char>,
}

/// Whether `..` needs a separator after `last_fragment`: directly after a
/// digit or a dot it would be read as part of a number.
pub open spec fn breaks_concat(last_fragment: Seq<char>) -> bool {
    last_fragment.len() > 0 && (is_digit_char(last_fragment.last()) || last_fragment.last() == '.')
}

/// Whether `-` needs a separator after `last_fragment`: `--` starts a comment.
pub open spec fn breaks_minus(last_fragment: Seq<char>) -> bool {
    last_fragment.len() > 0 && last_fragment.last() == '-'
}

/// Whether `...` needs a separator after `last_fragment`: the same hazard as
/// for `..`.
pub open spec fn breaks_variable_arguments(last_fragment: Seq<char>) -> bool {
    last_fragment.len() > 0 && (is_digit_char(last_fragment.last()) || last_fragment.last() == '.')
}

/// Whether a long-bracket string needs a separator after `last_fragment`:
/// `[[` would open a long bracket of another level.
pub open spec fn breaks_long_string(last_fragment: Seq<char>) -> bool {
    last_fragment.len() > 0 && last_fragment.last() == '['
}

/// The spacing oracle: a fragment that starts with `next` must be kept apart
/// from `output` when both sides of the seam are word characters.
pub open spec fn needs_space_after(output: Seq<char>, next: char) -> bool {
    is_word_char(next) && output.len() > 0 && is_word_char(output.last())
}

/// The separator before a plain fragment of `length` characters that starts
/// with `next`, on a line that holds `current_line_length` of the
/// `column_span` characters it may hold: a line break when the line is full
/// or the fragment does not fit with the space it needs, else a space where
/// the spacing oracle asks for one.
pub open spec fn separator_for(
    column_span: nat,
    current_line_length: nat,
    output: Seq<char>,
    next: char,
    length: nat,
) -> Separator {
    if current_line_length >= column_span {
        Separator::NewLine
    } else if needs_space_after(output, next) {
        if current_line_length + length + 1 > column_span {
            Separator::NewLine
        } else {
            Separator::Space
        }
    } else if current_line_length + length > column_span {
        Separator::NewLine
    } else {
        Separator::Nothing
    }
}

impl Layout {
    /// The state of a generator that has emitted nothing.
    pub open spec fn empty(column_span: nat) -> Layout {
        Layout { column_span, current_line_length: 0, last_push_length: 0, output: Seq::empty() }
    }

    /// Nothing has been pushed yet.
    pub open spec fn is_empty(self) -> bool {
        self.output.len() == 0 && self.current_line_length == 0 && self.last_push_length == 0
    }

    /// A fragment has been pushed and the current line holds all of it.
    pub open spec fn is_line_open(self) -> bool {
        0 < self.last_push_length <= self.current_line_length <= self.output.len()
    }

    /// The invariant that holds between operations: the generator is empty or
    /// has an open line.
    pub open spec fn well_formed(self) -> bool {
        self.is_empty() || self.is_line_open()
    }

    /// The counted line length is the true length of the last line of the output.
    pub open spec fn tracks_column(self) -> bool {
        self.current_line_length == column(self.output)
    }

    /// The text that precedes the most recent fragment.
    pub open spec fn before_last_fragment(self) -> Seq<char> {
        self.output.subrange(0, self.output.len() - self.last_push_length)
    }

    /// The most recent fragment, as it stands at the end of the output.
    pub open spec fn last_fragment(self) -> Seq<char> {
        self.output.subrange(self.output.len() - self.last_push_length, self.output.len() as int)
    }

    /// Whether `length` more characters fit on the current line.
    pub open spec fn fits(self, length: nat) -> bool {
        self.current_line_length + length <= self.column_span
    }

    /// The spacing oracle: a fragment that starts with `next` must be kept apart
    /// from the output when both sides of the seam are word characters.
    pub open spec fn needs_space(self, next: char) -> bool {
        needs_space_after(self.output, next)
    }

    /// The separator before a plain fragment of `length` characters that starts
    /// with `next`.
    pub open spec fn separator_before(self, next: char, length: nat) -> Separator {
        separator_for(self.column_span, self.current_line_length, self.output, next, length)
    }

    /// The separator before a fragment of `length` characters when the caller
    /// has decided from the last fragment whether a break is needed.
    pub open spec fn separator_if(self, break_needed: bool, length: nat) -> Separator {
        if break_needed {
            if self.fits(1 + length) {
                Separator::Space
            } else {
                Separator::NewLine
            }
        } else if !self.fits(length) {
            Separator::NewLine
        } else {
            Separator::Nothing
        }
    }

    /// The state after `separator` is written.
    pub open spec fn separate(self, separator: Separator) -> Layout {
        match separator {
            Separator::Nothing => self,
            Separator::Space => Layout {
                current_line_length: self.current_line_length + 1,
                output: self.output.push(' '),
                ..self
            },
            Separator::NewLine => Layout {
                current_line_length: 0,
                output: self.output.push('\n'),
                ..self
            },
        }
    }

    /// The state after `content` is appended as the new last fragment.
    pub open spec fn append(self, content: Seq<char>) -> Layout {
        Layout {
            current_line_length: self.current_line_length + content.len(),
            last_push_length: content.len(),
            output: self.output + content,
            ..self
        }
    }

    /// The state after a plain push of `content`. An empty fragment changes
    /// nothing.
    #[verifier::opaque]
    pub open spec fn push(self, content: Seq<char>) -> Layout {
        if content.len() == 0 {
            self
        } else {
            self.separate(self.separator_before(content[0], content.len())).append(content)
        }
    }

    /// The state after a push of `content` whose separator depends on
    /// `break_needed` alone, not on the spacing oracle.
    #[verifier::opaque]
    pub open spec fn push_if(self, content: Seq<char>, break_needed: bool) -> Layout {
        self.separate(self.separator_if(break_needed, content.len())).append(content)
    }

    /// The state after the last fragment has moved to a line of its own, with
    /// `c` attached: the spaces that stood before it are gone.
    pub open spec fn relocate(self, c: char) -> Layout {
        Layout {
            current_line_length: self.last_push_length + 1,
            last_push_length: self.last_push_length + 1,
            output: strip_trailing_spaces(self.before_last_fragment()) + seq!['\n']
                + self.last_fragment() + seq![c],
            ..self
        }
    }

    /// The state after `c` is attached to the last fragment: in place when it
    /// fits on the line, by relocation otherwise.
    #[verifier::opaque]
    pub open spec fn merge(self, c: char) -> Layout {
        if self.fits(1) {
            Layout {
                current_line_length: self.current_line_length + 1,
                last_push_length: self.last_push_length + 1,
                output: self.output.push(c),
                ..self
            }
        } else {
            self.relocate(c)
        }
    }
}

/// One request of the syntax-tree walker to the buffer.
pub enum Emission {
    /// A fragment that the spacing oracle separates from the output.
    Fragment(Seq<char>),
    /// A character that stays attached to the last fragment.
    Merged(char),
    /// The concatenation operator `..`.
    Concat,
    /// The unary minus `-`.
    Minus,
    /// The variable arguments `...`.
    VariableArguments,
    /// A string literal in its printed form.
    String(Seq<char>),
}

/// The characters that an emission adds to the output, without what may be
/// written before them.
pub open spec fn emission_text(emission: Emission) -> Seq<char> {
    match emission {
        Emission::Fragment(content) => content,
        Emission::Merged(c) => seq![c],
        Emission::Concat => ".."@,
        Emission::Minus => "-"@,
        Emission::VariableArguments => "..."@,
        Emission::String(literal) => literal,
    }
}

impl Layout {
    /// The state after one emission.
    pub open spec fn emit(self, emission: Emission) -> Layout {
        match emission {
            Emission::Fragment(content) => self.push(content),
            Emission::Merged(c) => self.merge(c),
            Emission::Concat => self.push_if(".."@, breaks_concat(self.last_fragment())),
            Emission::Minus => self.push_if("-"@, breaks_minus(self.last_fragment())),
            Emission::VariableArguments => self.push_if(
                "..."@,
                breaks_variable_arguments(self.last_fragment()),
            ),
            Emission::String(literal) => if literal.len() > 0 && literal[0] == '[' {
                self.push_if(literal, breaks_long_string(self.last_fragment()))
            } else {
                self.push(literal)
            },
        }
    }

    /// The state after a sequence of emissions, first to last.
    #[verifier::opaque]
    pub open spec fn emit_all(self, emissions: Seq<Emission>) -> Layout
        decreases emissions.len(),
    {
        if emissions.len() == 0 {
            self
        } else {
            self.emit_all(emissions.drop_last()).emit(emissions.last())
        }
    }
}

/// Emitting `first + second` is emitting `first`, then `second`.
pub broadcast proof fn lemma_emit_all_concat(
    layout: Layout,
    first: Seq<Emission>,
    second: Seq<Emission>,
)
    ensures
        #[trigger] layout.emit_all(first + second) == layout.emit_all(first).emit_all(second),
    decreases second.len(),
{
    reveal_with_fuel(Layout::emit_all, 2);
    if second.len() == 0 {
        assert(first + second =~= first);
    } else {
        lemma_emit_all_concat(layout, first, second.drop_last());
        assert((first + second).drop_last() =~= first + second.drop_last());
    }
}

/// Emitting a sequence of one emission is that emission.
pub broadcast proof fn lemma_emit_all_single(layout: Layout, emission: Emission)
    ensures
        #[trigger] layout.emit_all(seq![emission]) == layout.emit(emission),
{
    assert(seq![emission].drop_last() =~= Seq::<Emission>::empty());
    reveal_with_fuel(Layout::emit_all, 3);
}

/// Emitting nothing changes nothing.
pub broadcast proof fn lemma_emit_all_empty(layout: Layout)
    ensures
        #[trigger] layout.emit_all(Seq::empty()) == layout,
{
    reveal_with_fuel(Layout::emit_all, 2);
}

pub broadcast group group_emit_all {
    lemma_emit_all_concat,
    lemma_emit_all_single,
    lemma_emit_all_empty,
}

} // verus!
