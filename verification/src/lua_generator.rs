//! A plain generator: it pushes fragments into a text and adds spaces and line
//! breaks where they are needed.

use crate::generator::layout::{Separator, needs_space_after, separator_for};
use crate::generator::utils::{characters, is_relevant_for_spacing, string_of};
use crate::nodes::expressions::Identifier;
use vstd::prelude::*;

verus! {

/// The abstract state of a plain generator.
pub struct Page {
    /// The soft upper bound on the length of a line.
    pub column_span: nat,
    /// The length that the generator has counted for the current line.
    pub current_line_length: nat,
    /// The text produced so far.
    pub output: Seq<char>,
}

impl Page {
    /// The state of a generator that has produced nothing.
    pub open spec fn empty(column_span: nat) -> Page {
        Page { column_span, current_line_length: 0, output: Seq::empty() }
    }

    /// The counted line length is no more than the length of the text.
    pub open spec fn well_formed(self) -> bool {
        self.current_line_length <= self.output.len()
    }

    /// The state after `separator` is written.
    pub open spec fn separate(self, separator: Separator) -> Page {
        match separator {
            Separator::Nothing => self,
            Separator::Space => Page {
                current_line_length: self.current_line_length + 1,
                output: self.output.push(' '),
                ..self
            },
            Separator::NewLine => Page {
                current_line_length: 0,
                output: self.output.push('\n'),
                ..self
            },
        }
    }

    /// The state after `content` is written with nothing before it.
    pub open spec fn append(self, content: Seq<char>) -> Page {
        Page {
            current_line_length: self.current_line_length + content.len(),
            output: self.output + content,
            ..self
        }
    }

    /// The state after a push of `content`: the separator that the line and
    /// the spacing oracle ask for, then the content. An empty content changes
    /// nothing.
    pub open spec fn push(self, content: Seq<char>) -> Page {
        if content.len() == 0 {
            self
        } else {
            self.separate(
                separator_for(
                    self.column_span,
                    self.current_line_length,
                    self.output,
                    content[0],
                    content.len(),
                ),
            ).append(content)
        }
    }
}

/// The number of states that a generator goes through while it walks over
/// `count` elements: the one before the first call, and one after each call
/// of the two functions, which alternate.
pub open spec fn walk_length(count: nat) -> nat {
    if count == 0 {
        1
    } else {
        2 * count
    }
}

/// A generator of Lua code. Content is pushed into it, and it adds spaces
/// where they are necessary.
pub struct LuaGenerator {
    column_span: usize,
    current_line_length: usize,
    output: Vec<char>,
}

impl View for LuaGenerator {
    type V = Page;

    closed spec fn view(&self) -> Page {
        Page {
            column_span: self.column_span as nat,
            current_line_length: self.current_line_length as nat,
            output: self.output@,
        }
    }
}

impl LuaGenerator {
    /// Creates a generator that wraps the code on a new line after
    /// `column_span` characters.
    pub fn new(column_span: usize) -> (generator: Self)
        ensures
            generator@ == Page::empty(column_span as nat),
            generator@.well_formed(),
    {
        Self { column_span, current_line_length: 0, output: Vec::new() }
    }

    /// Appends `content`. A space may be written first, depending on the last
    /// character of the text and the first character of `content`.
    pub fn push_str(&mut self, content: &str)
        requires
            old(self)@.well_formed(),
        ensures
            final(self)@ == old(self)@.push(content@),
            final(self)@.well_formed(),
    {
        let fragment = characters(content);
        if fragment.len() > 0 {
            self.push_space_if_needed(fragment[0], fragment.len());
            let mut index: usize = 0;
            let ghost separated = self@;
            while index < fragment.len()
                invariant
                    index <= fragment.len(),
                    self.column_span == separated.column_span,
                    self.current_line_length == separated.current_line_length,
                    self.output@ == separated.output + fragment@.take(index as int),
                decreases fragment.len() - index,
            {
                self.output.push(fragment[index]);
                assert(fragment@.take(index + 1) =~= fragment@.take(index as int).push(
                    fragment@[index as int],
                ));
                index = index + 1;
            }
            assert(fragment@.take(index as int) =~= fragment@);
            assert(self.output.len() == self.output@.len());
            self.current_line_length = self.current_line_length + fragment.len();
        }
    }

    /// The same as `push_str`, for a single character.
    pub fn push_char(&mut self, character: char)
        requires
            old(self)@.well_formed(),
        ensures
            final(self)@ == old(self)@.push(seq![character]),
            final(self)@.well_formed(),
    {
        self.push_space_if_needed(character, 1);
        self.push_char_force_without_space(character);
    }

    /// Appends `character` with nothing before it: no space, and no line break
    /// even where the line is full.
    pub fn push_char_force_without_space(&mut self, character: char)
        requires
            old(self)@.well_formed(),
        ensures
            final(self)@ == old(self)@.append(seq![character]),
            final(self)@.well_formed(),
    {
        self.output.push(character);
        assert(self.output.len() == self.output@.len());
        assert(self.output@ =~= old(self).output@ + seq![character]);
        self.current_line_length = self.current_line_length + 1;
    }

    fn push_space_if_needed(&mut self, next_character: char, pushed_length: usize)
        requires
            old(self)@.well_formed(),
        ensures
            final(self)@ == old(self)@.separate(
                separator_for(
                    old(self)@.column_span,
                    old(self)@.current_line_length,
                    old(self)@.output,
                    next_character,
                    pushed_length as nat,
                ),
            ),
            final(self)@.well_formed(),
    {
        if self.current_line_length >= self.column_span {
            self.push_new_line();
        } else {
            let room: usize = self.column_span - self.current_line_length;
            if self.needs_space(next_character) {
                if pushed_length >= room {
                    self.push_new_line();
                } else {
                    self.output.push(' ');
                    assert(self.output.len() == self.output@.len());
                    self.current_line_length = self.current_line_length + 1;
                }
            } else {
                if pushed_length > room {
                    self.push_new_line();
                }
            }
        }
    }

    #[inline]
    fn push_new_line(&mut self)
        ensures
            final(self)@ == old(self)@.separate(Separator::NewLine),
    {
        self.output.push('\n');
        self.current_line_length = 0;
    }

    fn needs_space(&self, next_character: char) -> (needed: bool)
        ensures
            needed == needs_space_after(self@.output, next_character),
    {
        is_relevant_for_spacing(&next_character) && self.output.len() > 0
            && is_relevant_for_spacing(&self.output[self.output.len() - 1])
    }

    /// Consumes the generator and returns the text it has produced.
    pub fn into_string(self) -> (text: String)
        ensures
            text@ == self@.output,
    {
        string_of(&self.output)
    }

    /// Calls `for_each` with each element of `vector`, in order, and calls
    /// `between` between each two elements. It serves to write lists that are
    /// separated by commas.
    ///
    /// The generator goes through a chain of states: the calls of `for_each`
    /// and of `between` alternate, each takes the generator from one state to
    /// the next, and the chain begins and ends with a call of `for_each`.
    pub fn for_each_and_between<T, F, G>(
        &mut self,
        vector: &Vec<T>,
        for_each: F,
        between: G,
    ) where F: Fn(&mut Self, &T), G: Fn(&mut Self)
        requires
            old(self)@.well_formed(),
            forall|generator: &mut LuaGenerator, index: int|
                generator@.well_formed() && 0 <= index < vector@.len() ==> call_requires(
                    for_each,
                    (generator, &vector@[index]),
                ),
            forall|generator: &mut LuaGenerator, element: &T|
                call_ensures(for_each, (generator, element), ()) ==> final(
                    generator
                )@.well_formed(),
            forall|generator: &mut LuaGenerator|
                generator@.well_formed() ==> call_requires(between, (generator,)),
            forall|generator: &mut LuaGenerator|
                call_ensures(between, (generator,), ()) ==> final(generator)@.well_formed(),
        ensures
            final(self)@.well_formed(),
            exists|chain: Seq<LuaGenerator>|
                #![trigger chain.len()]
                {
                    &&& chain.len() == walk_length(vector@.len())
                    &&& chain[0] == *old(self)
                    &&& chain[chain.len() - 1] == *final(self)
                    &&& forall|step: int|
                        #![trigger chain[step]]
                        0 <= step < chain.len() - 1 && step % 2 == 0 ==> exists|
                            generator: &mut LuaGenerator,
                        |
                            #![trigger call_ensures(for_each, (generator, &vector@[step / 2]), ())]
                            *generator == chain[step] && *final(generator) == chain[step + 1]
                                && call_ensures(for_each, (generator, &vector@[step / 2]), ())
                    &&& forall|step: int|
                        #![trigger chain[step]]
                        0 <= step < chain.len() - 1 && step % 2 == 1 ==> exists|
                            generator: &mut LuaGenerator,
                        |
                            #![trigger call_ensures(between, (generator,), ())]
                            *generator == chain[step] && *final(generator) == chain[step + 1]
                                && call_ensures(between, (generator,), ())
                },
    {
        let ghost mut states: Seq<LuaGenerator> = seq![*self];
        let mut index: usize = 0;
        while index < vector.len()
            invariant
                index <= vector.len(),
                self@.well_formed(),
                forall|generator: &mut LuaGenerator, index: int|
                    generator@.well_formed() && 0 <= index < vector@.len() ==> call_requires(
                        for_each,
                        (generator, &vector@[index]),
                    ),
                forall|generator: &mut LuaGenerator, element: &T|
                    call_ensures(for_each, (generator, element), ()) ==> final(
                        generator
                    )@.well_formed(),
                forall|generator: &mut LuaGenerator|
                    generator@.well_formed() ==> call_requires(between, (generator,)),
                forall|generator: &mut LuaGenerator|
                    call_ensures(between, (generator,), ()) ==> final(generator)@.well_formed(),
                states.len() == walk_length(index as nat),
                states[0] == *old(self),
                states[states.len() - 1] == *self,
                forall|step: int|
                    #![trigger states[step]]
                    0 <= step < states.len() - 1 && step % 2 == 0 ==> exists|
                        generator: &mut LuaGenerator,
                    |
                        #![trigger call_ensures(for_each, (generator, &vector@[step / 2]), ())]
                        *generator == states[step] && *final(generator) == states[step + 1]
                            && call_ensures(for_each, (generator, &vector@[step / 2]), ()),
                forall|step: int|
                    #![trigger states[step]]
                    0 <= step < states.len() - 1 && step % 2 == 1 ==> exists|
                        generator: &mut LuaGenerator,
                    |
                        #![trigger call_ensures(between, (generator,), ())]
                        *generator == states[step] && *final(generator) == states[step + 1]
                            && call_ensures(between, (generator,), ()),
            decreases vector.len() - index,
        {
            let ghost earlier = states;
            if index > 0 {
                between(self);
                proof {
                    states = states.push(*self);
                }
            }
            let ghost before = *self;
            for_each(self, &vector[index]);
            proof {
                states = states.push(*self);
                assert(states.len() - 2 == 2 * index);
                assert(states[2 * index] == before);
                assert(states[2 * index + 1] == *self);
                assert forall|step: int|
                    #![trigger states[step]]
                    0 <= step < states.len() - 1 && step % 2 == 0 implies exists|
                    generator: &mut LuaGenerator,
                |
                    #![trigger call_ensures(for_each, (generator, &vector@[step / 2]), ())]
                    *generator == states[step] && *final(generator) == states[step + 1]
                        && call_ensures(for_each, (generator, &vector@[step / 2]), ()) by {
                    if step < earlier.len() - 1 {
                        assert(states[step] == earlier[step]);
                        assert(states[step + 1] == earlier[step + 1]);
                    } else {
                        assert(step == 2 * index);
                        assert(step / 2 == index);
                    }
                }
                assert forall|step: int|
                    #![trigger states[step]]
                    0 <= step < states.len() - 1 && step % 2 == 1 implies exists|
                    generator: &mut LuaGenerator,
                |
                    #![trigger call_ensures(between, (generator,), ())]
                    *generator == states[step] && *final(generator) == states[step + 1]
                        && call_ensures(between, (generator,), ()) by {
                    if step < earlier.len() - 1 {
                        assert(states[step] == earlier[step]);
                        assert(states[step + 1] == earlier[step + 1]);
                    }
                }
            }
            index = index + 1;
        }
        proof {
            assert(states.len() == walk_length(vector@.len()));
        }
    }
}

impl Default for LuaGenerator {
    /// A generator with a budget of 80 columns.
    fn default() -> (generator: Self)
        ensures
            generator@ == Page::empty(80),
            generator@.well_formed(),
    {
        Self::new(80)
    }
}

/// What can be converted into Lua code.
pub trait ToLua {
    /// The state in which the value leaves a generator that it finds in the
    /// state `page`.
    spec fn written(&self, page: Page) -> Page;

    /// Writes the value into `generator`.
    fn to_lua(&self, generator: &mut LuaGenerator)
        requires
            old(generator)@.well_formed(),
        ensures
            final(generator)@ == self.written(old(generator)@),
            final(generator)@.well_formed(),
    ;

    /// The Lua code of the value: what it writes into a generator with the
    /// default budget that has produced nothing yet.
    fn to_lua_string(&self) -> (text: String)
        ensures
            text@ == self.written(Page::empty(80)).output,
    {
        let mut generator = LuaGenerator::default();

        self.to_lua(&mut generator);

        generator.into_string()
    }
}

impl ToLua for Identifier {
    /// A name is pushed as it is.
    open spec fn written(&self, page: Page) -> Page {
        page.push(self.name@)
    }

    fn to_lua(&self, generator: &mut LuaGenerator) {
        generator.push_str(self.name.as_str());
    }
}

} // verus!
