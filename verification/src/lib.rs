//! Configuration builder for the River Wayland compositor.
//!
//! A [`config::Config`] collects keybinds, a colour palette, a layout
//! generator and a modifier, and turns them into the argument vectors that
//! the control tool `riverctl` understands. Nothing here starts a process:
//! an operation that stands for an external call hands out the
//! [`invocation::Invocation`] to run, or records it in the configuration,
//! where the calls wait in the order in which they have to run.
use crate::invocation::{control, push_text, Invocation, InvocationView};
use crate::text::texts;
use vstd::prelude::*;

pub mod colors;
pub mod config;
pub mod invocation;
pub mod layout;
pub mod text;

verus! {

/// The call that lets the compositor start `command`. The command is one
/// argument, whatever it holds.
pub open spec fn spawn_call(command: Seq<char>) -> InvocationView {
    control(seq!["spawn"@, command])
}

/// The call that lets the compositor start `command`.
pub fn spawn(command: &str) -> (call: Invocation)
    ensures
        call@ == spawn_call(command@),
{
    let mut args: Vec<String> = Vec::new();
    push_text(&mut args, "spawn");
    push_text(&mut args, command);
    assert(texts(args@) =~= seq!["spawn"@, command@]);
    Invocation::control(args)
}

} // verus!
