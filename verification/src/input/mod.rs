pub mod rdp;

use vstd::prelude::*;

verus! {

/// Whose keyboard layout a session uses.
#[derive(Clone, Copy, Debug, PartialEq, Eq, Structural)]
pub enum KeyboardLayoutPolicy {
    Client,
    Compositor,
}

} // verus!
