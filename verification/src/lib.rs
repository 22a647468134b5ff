use vstd::prelude::*;

pub mod embeds;
pub mod inspireme;
pub mod session;
pub mod source;
pub mod utils;

verus! {

/// Shared user data handed to every command invocation by the chat framework.
pub struct Data {}

} // verus!
