//! What a client's session means for the input side.
use vstd::prelude::*;

use super::KeyboardLayoutPolicy;

verus! {

/// What the input side is told of a session.
#[derive(Debug, PartialEq, Eq)]
pub enum InputCommand {
    ApplyKeymap { keymap_data: Vec<u8>, keymap_source: &'static str },
    ReleaseHeldKeys,
}

/// The keymap that a client's layout leads to. The compositor's own layout is
/// never replaced under its policy; otherwise the layout has to be known, and
/// its keymap has to be generated.
pub open spec fn keymap_for<T, N, G>(
    policy: KeyboardLayoutPolicy,
    keyboard_layout: u32,
    names_for: N,
    generate: G,
    keymap: Option<Vec<u8>>,
) -> bool where N: FnOnce(u32) -> Option<T>, G: FnOnce(T) -> Option<Vec<u8>> {
    if policy == KeyboardLayoutPolicy::Compositor {
        keymap is None
    } else {
        exists|names: Option<T>|
            #[trigger] names_for.ensures((keyboard_layout,), names) && match names {
                Some(names) => generate.ensures((names,), keymap),
                None => keymap is None,
            }
    }
}

/// The keymap to use for a client's layout, or `None` to keep the one in use.
/// `names_for` looks the layout up, and `generate` makes the keymap.
pub fn client_keymap_from_keyboard_layout<T, N, G>(
    keyboard_layout_policy: KeyboardLayoutPolicy,
    keyboard_layout: u32,
    names_for: N,
    generate: G,
) -> (r: Option<Vec<u8>>) where N: FnOnce(u32) -> Option<T>, G: FnOnce(T) -> Option<Vec<u8>>
    requires
        keyboard_layout_policy == KeyboardLayoutPolicy::Client ==> {
            &&& names_for.requires((keyboard_layout,))
            &&& forall|names: T|
                names_for.ensures((keyboard_layout,), Some(names)) ==> #[trigger] generate.requires(
                    (names,),
                )
        },
    ensures
        keymap_for(keyboard_layout_policy, keyboard_layout, names_for, generate, r),
{
    match keyboard_layout_policy {
        KeyboardLayoutPolicy::Compositor => None,
        KeyboardLayoutPolicy::Client => match names_for(keyboard_layout) {
            Some(names) => generate(names),
            None => {
                assert(names_for.ensures((keyboard_layout,), None));
                None
            },
        },
    }
}

/// The session's end of the input side.
#[derive(Clone, Copy, Debug, PartialEq, Eq, Structural)]
pub struct RdpInputSessionHandle {
    pub keyboard_layout_policy: KeyboardLayoutPolicy,
}

/// The command that applies a keymap.
pub open spec fn applies(command: Option<InputCommand>, keymap: Option<Vec<u8>>) -> bool {
    match (command, keymap) {
        (
            Some(InputCommand::ApplyKeymap { keymap_data, keymap_source }),
            Some(keymap),
        ) => keymap_data == keymap && keymap_source@ == "rdp-client"@,
        (None, None) => true,
        _ => false,
    }
}

impl RdpInputSessionHandle {
    /// A handle under a keyboard layout policy.
    pub fn new(keyboard_layout_policy: KeyboardLayoutPolicy) -> (r: Self)
        ensures
            r == (RdpInputSessionHandle { keyboard_layout_policy }),
    {
        RdpInputSessionHandle { keyboard_layout_policy }
    }

    /// Keys that are held when a session ends are released, as long as the input
    /// side is still there.
    pub fn session_ended(&self, actor_alive: bool) -> (r: Option<InputCommand>)
        ensures
            r == if actor_alive {
                Some(InputCommand::ReleaseHeldKeys)
            } else {
                None
            },
    {
        if actor_alive {
            Some(InputCommand::ReleaseHeldKeys)
        } else {
            None
        }
    }

    /// The client's keyboard layout becomes the keymap, where there is one for it
    /// and the input side is still there.
    pub fn set_keyboard_layout<T, N, G>(
        &self,
        keyboard_layout: u32,
        actor_alive: bool,
        names_for: N,
        generate: G,
    ) -> (r: Option<InputCommand>) where
        N: FnOnce(u32) -> Option<T>,
        G: FnOnce(T) -> Option<Vec<u8>>,

        requires
            self.keyboard_layout_policy == KeyboardLayoutPolicy::Client ==> {
                &&& names_for.requires((keyboard_layout,))
                &&& forall|names: T|
                    names_for.ensures((keyboard_layout,), Some(names))
                        ==> #[trigger] generate.requires((names,))
            },
        ensures
            !actor_alive ==> r is None,
            actor_alive ==> exists|keymap: Option<Vec<u8>>|
                keymap_for(
                    self.keyboard_layout_policy,
                    keyboard_layout,
                    names_for,
                    generate,
                    keymap,
                ) && #[trigger] applies(r, keymap),
    {
        let keymap = client_keymap_from_keyboard_layout(
            self.keyboard_layout_policy,
            keyboard_layout,
            names_for,
            generate,
        );
        let ghost made = keymap;
        let command = match keymap {
            Some(keymap_data) => Some(
                InputCommand::ApplyKeymap { keymap_data, keymap_source: "rdp-client" },
            ),
            None => None,
        };
        assert(applies(command, made));
        if actor_alive {
            command
        } else {
            None
        }
    }
}

/// Under the compositor's policy a client's layout changes nothing. Under the client's,
/// the keymap is the one that is generated for the names of the client's own layout, and
/// there is none for a layout that has no names.
pub proof fn whose_keymap_is_used<T, N, G>(
    policy: KeyboardLayoutPolicy,
    keyboard_layout: u32,
    names_for: N,
    generate: G,
    keymap: Option<Vec<u8>>,
) where N: FnOnce(u32) -> Option<T>, G: FnOnce(T) -> Option<Vec<u8>>
    requires
        keymap_for(policy, keyboard_layout, names_for, generate, keymap),
    ensures
        match policy {
            KeyboardLayoutPolicy::Compositor => keymap is None,
            KeyboardLayoutPolicy::Client => {
                &&& keymap is Some ==> exists|names: T|
                    #[trigger] names_for.ensures((keyboard_layout,), Some(names))
                        && generate.ensures((names,), keymap)
                &&& keymap is None ==> names_for.ensures((keyboard_layout,), None) || exists|
                    names: T,
                |
                    #[trigger] names_for.ensures((keyboard_layout,), Some(names))
                        && generate.ensures((names,), None)
            },
        },
{
    if policy == KeyboardLayoutPolicy::Client {
        let names = choose|names: Option<T>|
            #[trigger] names_for.ensures((keyboard_layout,), names) && match names {
                Some(names) => generate.ensures((names,), keymap),
                None => keymap is None,
            };
        if let Some(found) = names {
            assert(names_for.ensures((keyboard_layout,), Some(found)));
        }
    }
}

/// A keymap is applied as it is and as the client's; without one there is no command.
pub proof fn a_keymap_is_applied_as_it_is(command: Option<InputCommand>, keymap: Option<Vec<u8>>)
    requires
        applies(command, keymap),
    ensures
        match keymap {
            Some(bytes) => match command {
                Some(InputCommand::ApplyKeymap { keymap_data, keymap_source }) => keymap_data@
                    == bytes@ && keymap_source@ == "rdp-client"@,
                _ => false,
            },
            None => command is None,
        },
{
}

} // verus!
