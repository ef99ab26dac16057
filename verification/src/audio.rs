//! Where the desktop's sound is heard.
use vstd::prelude::*;

verus! {

/// What happens to the desktop's sound.
#[derive(Clone, Copy, Debug, PartialEq, Eq, Structural)]
pub enum AudioMode {
    /// Heard on both ends.
    Mirror,
    /// Heard by the client only.
    Redirect,
    /// Not sent at all.
    Off,
}

} // verus!
