//! Bindings: what a display is told about a game.

use crate::model::{Model, Msg};
use vstd::prelude::*;

verus! {

/// A declared link between a display and a game. It carries no data:
/// to declare a binding is to name it.
#[derive(Clone, Copy, Debug, PartialEq, Eq, Structural)]
pub struct ViewBinding;

/// Declares that the display shows under `name` what `getter` reads off
/// the game. The getter is not called.
pub fn one_way<T>(name: &'static str, getter: impl FnOnce(Model) -> T) -> (binding: ViewBinding)
    ensures
        binding == ViewBinding,
{
    ViewBinding
}

/// Declares that the display sends `message` under `name`.
pub fn msg(name: &'static str, message: Msg) -> (binding: ViewBinding)
    ensures
        binding == ViewBinding,
{
    ViewBinding
}

} // verus!
