//! One external call: the program to start and the arguments to hand it.
use crate::text::texts;
use vstd::prelude::*;

verus! {

/// A program and its arguments, ready to be started.
#[derive(Debug, Clone, PartialEq, Eq)]
pub struct Invocation {
    pub program: String,
    pub args: Vec<String>,
}

/// What an [`Invocation`] holds, as text.
pub struct InvocationView {
    pub program: Seq<char>,
    pub args: Seq<Seq<char>>,
}

impl View for Invocation {
    type V = InvocationView;

    open spec fn view(&self) -> InvocationView {
        InvocationView { program: self.program@, args: texts(self.args@) }
    }
}

/// What each invocation of `v` holds, in order.
pub open spec fn plan(v: Seq<Invocation>) -> Seq<InvocationView> {
    v.map_values(|call: Invocation| call@)
}

/// A call of the control tool with the arguments `args`.
pub open spec fn control(args: Seq<Seq<char>>) -> InvocationView {
    InvocationView { program: "riverctl"@, args }
}

impl Invocation {
    /// A call of `program` with the arguments `args`.
    pub fn new(program: &str, args: Vec<String>) -> (call: Invocation)
        ensures
            call@.program == program@,
            call@.args == texts(args@),
    {
        Invocation { program: String::from_str(program), args }
    }

    /// A call of the control tool with the arguments `args`.
    pub fn control(args: Vec<String>) -> (call: Invocation)
        ensures
            call@ == control(texts(args@)),
    {
        Invocation::new("riverctl", args)
    }
}

/// Appends a copy of `word` to `args`.
pub fn push_text(args: &mut Vec<String>, word: &str)
    ensures
        texts(final(args)@) == texts(old(args)@).push(word@),
{
    args.push(String::from_str(word));
    assert(texts(args@) =~= texts(old(args)@).push(word@));
}

} // verus!
