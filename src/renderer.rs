use vstd::prelude::*;

verus! {

/// Handle on the terminal session; the terminal itself is driven by the
/// application around this library.
#[derive(Clone, Copy, Debug, PartialEq, Eq, Structural)]
pub struct Renderer {}

impl Renderer {
    pub fn new() -> (r: Self)
        ensures
            r == (Renderer {}),
    {
        Renderer {}
    }
}

impl Default for Renderer {
    fn default() -> (r: Self)
        ensures
            r == (Renderer {}),
    {
        Renderer::new()
    }
}

} // verus!
