//! The dense generator: a character buffer that follows the layout model.

use crate::generator::layout::{Layout, Separator};
use crate::generator::text::strip_trailing_spaces;
use crate::generator::utils::{characters, is_relevant_for_spacing, string_of};
use vstd::prelude::*;
use vstd::slice::slice_subrange;

verus! {

/// A generator that produces Lua code as small as possible. Its output is not
/// meant to be read by humans.
#[derive(Debug, Clone)]
pub struct DenseLuaGenerator {
    column_span: usize,
    current_line_length: usize,
    output: Vec<char>,
    last_push_length: usize,
}

impl View for DenseLuaGenerator {
    type V = Layout;

    closed spec fn view(&self) -> Layout {
        Layout {
            column_span: self.column_span as nat,
            current_line_length: self.current_line_length as nat,
            last_push_length: self.last_push_length as nat,
            output: self.output@,
        }
    }
}

impl DenseLuaGenerator {
    /// Creates a generator that wraps the code on a new line after
    /// `column_span` characters.
    pub fn new(column_span: usize) -> (generator: Self)
        ensures
            generator@ == Layout::empty(column_span as nat),
            generator@.well_formed(),
    {
        Self { column_span, current_line_length: 0, output: Vec::new(), last_push_length: 0 }
    }

    /// Appends `content` as a fragment. A space or a line break is written
    /// first where the spacing oracle or the column budget asks for one. An
    /// empty `content` changes nothing.
    pub fn push_str(&mut self, content: &str)
        requires
            old(self)@.well_formed(),
        ensures
            final(self)@ == old(self)@.push(content@),
            final(self)@.well_formed(),
    {
        proof {
            reveal(Layout::push);
        }
        let fragment = characters(content);
        if fragment.len() > 0 {
            self.push_space_if_needed(fragment[0], fragment.len());
            self.raw_push_str(&fragment);
        }
    }

    /// The same as `push_str`, for a single character.
    pub fn push_char(&mut self, character: char)
        requires
            old(self)@.well_formed(),
        ensures
            final(self)@ == old(self)@.push(seq![character]),
            final(self)@.well_formed(),
    {
        proof {
            reveal(Layout::push);
        }
        self.push_space_if_needed(character, 1);
        self.raw_push_char(character);
    }

    /// Appends `character` so that it stays attached to the last fragment: when
    /// the line is full, the last fragment moves to a new line and takes the
    /// character with it.
    pub fn merge_char(&mut self, character: char)
        requires
            old(self)@.well_formed(),
        ensures
            final(self)@ == old(self)@.merge(character),
            final(self)@.well_formed(),
    {
        proof {
            reveal(Layout::merge);
        }
        if self.fits_on_current_line(1) {
            self.output.push(character);
            assert(self.output.len() == self.output@.len());
            self.current_line_length = self.current_line_length + 1;
            self.last_push_length = self.last_push_length + 1;
        } else {
            let ghost before = self@.before_last_fragment();
            let ghost last_fragment = self@.last_fragment();
            let mut last_push_content = self.output.split_off(
                self.output.len() - self.last_push_length,
            );
            while self.output.len() > 0 && self.output[self.output.len() - 1] == ' '
                invariant
                    strip_trailing_spaces(self.output@) == strip_trailing_spaces(before),
                    last_push_content@ == last_fragment,
                    self.last_push_length == old(self).last_push_length,
                    self.column_span == old(self).column_span,
                decreases self.output.len(),
            {
                self.output.pop();
            }
            self.output.push('\n');
            self.output.append(&mut last_push_content);
            self.output.push(character);
            assert(self.output.len() == self.output@.len());
            assert(self.output@ =~= old(self)@.relocate(character).output);
            self.last_push_length = self.last_push_length + 1;
            self.current_line_length = self.last_push_length;
        }
    }

    /// Writes the separator that a plain fragment of `pushed_length`
    /// characters needs when it starts with `next_character`.
    fn push_space_if_needed(&mut self, next_character: char, pushed_length: usize)
        requires
            old(self)@.current_line_length <= old(self)@.output.len(),
        ensures
            final(self)@ == old(self)@.separate(
                old(self)@.separator_before(next_character, pushed_length as nat),
            ),
    {
        if self.current_line_length >= self.column_span {
            self.push_new_line();
        } else {
            let room: usize = self.column_span - self.current_line_length;
            if self.needs_space(next_character) {
                if pushed_length >= room {
                    self.push_new_line();
                } else {
                    self.push_space();
                }
            } else if pushed_length > room {
                self.push_new_line();
            }
        }
    }

    /// Writes a line break.
    #[inline]
    fn push_new_line(&mut self)
        ensures
            final(self)@ == old(self)@.separate(Separator::NewLine),
    {
        self.output.push('\n');
        self.current_line_length = 0;
    }

    /// Writes a space.
    #[inline]
    fn push_space(&mut self)
        requires
            old(self)@.current_line_length <= old(self)@.output.len(),
        ensures
            final(self)@ == old(self)@.separate(Separator::Space),
    {
        self.output.push(' ');
        assert(self.output.len() == self.output@.len());
        self.current_line_length = self.current_line_length + 1;
    }

    /// Whether `length` more characters fit on the current line.
    #[inline]
    fn fits_on_current_line(&self, length: usize) -> (fits: bool)
        ensures
            fits == self@.fits(length as nat),
    {
        self.current_line_length <= self.column_span && length <= self.column_span
            - self.current_line_length
    }

    /// Whether a fragment that starts with `next_character` would merge with
    /// the end of the output.
    #[inline]
    fn needs_space(&self, next_character: char) -> (needed: bool)
        ensures
            needed == self@.needs_space(next_character),
    {
        is_relevant_for_spacing(&next_character) && self.output.len() > 0
            && is_relevant_for_spacing(&self.output[self.output.len() - 1])
    }

    /// Consumes the generator and returns the text it has produced.
    pub fn into_string(self) -> (text: String)
        ensures
            text@ == self@.output,
    {
        string_of(&self.output)
    }

    /// Appends `content` as the new last fragment, with nothing before it.
    #[inline]
    fn raw_push_str(&mut self, content: &Vec<char>)
        requires
            old(self)@.current_line_length <= old(self)@.output.len(),
        ensures
            final(self)@ == old(self)@.append(content@),
    {
        let mut index: usize = 0;
        while index < content.len()
            invariant
                index <= content.len(),
                self.output@ == old(self).output@ + content@.take(index as int),
                self.column_span == old(self).column_span,
                self.current_line_length == old(self).current_line_length,
            decreases content.len() - index,
        {
            self.output.push(content[index]);
            assert(content@.take(index + 1) =~= content@.take(index as int).push(
                content@[index as int],
            ));
            index = index + 1;
        }
        assert(content@.take(index as int) =~= content@);
        assert(self.output.len() == self.output@.len());
        self.last_push_length = content.len();
        self.current_line_length = self.current_line_length + self.last_push_length;
    }

    /// Appends `character` as the new last fragment, with nothing before it.
    #[inline]
    fn raw_push_char(&mut self, character: char)
        requires
            old(self)@.current_line_length <= old(self)@.output.len(),
        ensures
            final(self)@ == old(self)@.append(seq![character]),
    {
        self.output.push(character);
        assert(self.output.len() == self.output@.len());
        assert(self.output@ =~= old(self).output@ + seq![character]);
        self.last_push_length = 1;
        self.current_line_length = self.current_line_length + 1;
    }

    /// Appends `content` as a fragment whose separator depends on the last
    /// fragment: where `predicate` holds of it, a space is written first, or a
    /// line break when the space and `content` do not fit; where it does not
    /// hold, a line break is written only when `content` does not fit.
    pub fn push_str_and_break_if<F>(&mut self, content: &str, predicate: F) where
        F: Fn(&[char]) -> bool,
        requires
            old(self)@.well_formed(),
            content@.len() > 0,
            forall|last_push: &[char]|
                last_push@ == old(self)@.last_fragment() ==> call_requires(
                    predicate,
                    (last_push,),
                ),
        ensures
            exists|last_push: &[char], break_needed: bool|
                last_push@ == old(self)@.last_fragment() && call_ensures(
                    predicate,
                    (last_push,),
                    break_needed,
                ) && final(self)@ == old(self)@.push_if(content@, break_needed),
            final(self)@.well_formed(),
    {
        proof {
            reveal(Layout::push_if);
        }
        let fragment = characters(content);
        let break_needed = predicate(self.get_last_push_str());
        if break_needed {
            if self.current_line_length < self.column_span && fragment.len() <= self.column_span
                - self.current_line_length - 1 {
                self.push_space();
            } else {
                self.push_new_line();
            }
        } else if !self.fits_on_current_line(fragment.len()) {
            self.push_new_line();
        }
        self.raw_push_str(&fragment);
    }

    /// The last fragment, as it stands at the end of the output.
    fn get_last_push_str(&self) -> (last_push: &[char])
        requires
            self@.last_push_length <= self@.output.len(),
        ensures
            last_push@ == self@.last_fragment(),
    {
        slice_subrange(
            self.output.as_slice(),
            self.output.len() - self.last_push_length,
            self.output.len(),
        )
    }
}

impl Default for DenseLuaGenerator {
    /// A generator with a budget of 80 columns.
    fn default() -> (generator: Self)
        ensures
            generator@ == Layout::empty(80),
            generator@.well_formed(),
    {
        Self::new(80)
    }
}

} // verus!
