//! The layout generator: the program that places the views, and the
//! arguments it is started with.
use crate::invocation::{control, plan, push_text, Invocation, InvocationView};
use crate::text::{texts, tokenize, tokens};
use vstd::prelude::*;

verus! {

/// A layout generator and its arguments.
#[derive(Debug, Clone, PartialEq, Eq)]
pub struct Layout {
    pub generator: String,
    pub arguments: String,
}

/// What a [`Layout`] holds, as text.
pub struct LayoutView {
    pub generator: Seq<char>,
    pub arguments: Seq<char>,
}

impl View for Layout {
    type V = LayoutView;

    open spec fn view(&self) -> LayoutView {
        LayoutView { generator: self.generator@, arguments: self.arguments@ }
    }
}

/// The calls that make `layout` the active one: the control tool is told
/// the generator's name, then the generator is started with the words of
/// its argument string.
pub open spec fn spawn_plan(layout: LayoutView) -> Seq<InvocationView> {
    seq![
        control(seq!["default-layout"@, layout.generator]),
        InvocationView { program: layout.generator, args: tokens(layout.arguments) },
    ]
}

/// The layout that a new configuration starts with: `rivertile` with a
/// padding of six pixels.
pub open spec fn default_layout() -> LayoutView {
    LayoutView { generator: "rivertile"@, arguments: "-view-padding 6 -outer-padding 6"@ }
}

impl Default for Layout {
    /// `rivertile` with a padding of six pixels.
    fn default() -> (layout: Self)
        ensures
            layout@ == default_layout(),
    {
        Layout {
            generator: String::from_str("rivertile"),
            arguments: String::from_str("-view-padding 6 -outer-padding 6"),
        }
    }
}

impl Layout {
    /// Replaces the generator's name and leaves the arguments as they are.
    pub fn set_generator(&mut self, generator: &str) -> (owner: &mut Self)
        ensures
            owner@ == (LayoutView { generator: generator@, ..old(self)@ }),
            *final(self) == *final(owner),
    {
        self.generator = String::from_str(generator);
        self
    }

    /// Replaces the argument string and leaves the generator as it is.
    pub fn set_args(&mut self, args: &str) -> (owner: &mut Self)
        ensures
            owner@ == (LayoutView { arguments: args@, ..old(self)@ }),
            *final(self) == *final(owner),
    {
        self.arguments = String::from_str(args);
        self
    }

    /// The calls that make this layout the active one, in the order in
    /// which they have to run.
    pub fn spawn(&self) -> (calls: Vec<Invocation>)
        ensures
            plan(calls@) == spawn_plan(self@),
    {
        let mut select: Vec<String> = Vec::new();
        push_text(&mut select, "default-layout");
        push_text(&mut select, self.generator.as_str());
        assert(texts(select@) =~= seq!["default-layout"@, self.generator@]);
        let mut calls: Vec<Invocation> = Vec::new();
        calls.push(Invocation::control(select));
        calls.push(Invocation::new(self.generator.as_str(), tokenize(self.arguments.as_str())));
        assert(plan(calls@) =~= spawn_plan(self@));
        calls
    }
}

} // verus!
