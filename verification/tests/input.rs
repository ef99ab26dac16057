use hypr_rdp::input::rdp::{
    client_keymap_from_keyboard_layout, InputCommand, RdpInputSessionHandle,
};
use hypr_rdp::input::KeyboardLayoutPolicy;

/// Only the German layout is known here.
fn names_for(layout: u32) -> Option<&'static str> {
    if layout == 0x00000407 {
        Some("de")
    } else {
        None
    }
}

fn generate(names: &'static str) -> Option<Vec<u8>> {
    Some(names.as_bytes().to_vec())
}

#[test]
fn client_keyboard_layout_keeps_existing_keymap_when_unknown() {
    assert!(client_keymap_from_keyboard_layout(
        KeyboardLayoutPolicy::Client,
        0x0000ffff,
        names_for,
        generate
    )
    .is_none());
}

#[test]
fn client_keyboard_layout_uses_the_generated_keymap() {
    assert_eq!(
        client_keymap_from_keyboard_layout(
            KeyboardLayoutPolicy::Client,
            0x00000407,
            names_for,
            generate
        ),
        Some(b"de".to_vec())
    );
    assert_eq!(
        client_keymap_from_keyboard_layout(
            KeyboardLayoutPolicy::Client,
            0x00000407,
            names_for,
            |_names| None
        ),
        None
    );
}

#[test]
fn compositor_keyboard_layout_policy_ignores_supported_client_layout() {
    assert!(client_keymap_from_keyboard_layout(
        KeyboardLayoutPolicy::Compositor,
        0x00000407,
        |_layout| -> Option<&'static str> { panic!("the layout must not be looked up") },
        generate
    )
    .is_none());
}

#[test]
fn rdp_input_session_handle_enqueues_session_end() {
    let handle = RdpInputSessionHandle::new(KeyboardLayoutPolicy::Client);

    let command = handle
        .session_ended(true)
        .expect("the end of a session must reach the input actor");
    assert!(matches!(command, InputCommand::ReleaseHeldKeys));
}

#[test]
fn rdp_input_session_handle_sends_apply_keymap_for_supported_layout() {
    let handle = RdpInputSessionHandle::new(KeyboardLayoutPolicy::Client);

    let command = handle
        .set_keyboard_layout(0x00000407, true, names_for, generate)
        .expect("command");
    assert!(
        matches!(
            command,
            InputCommand::ApplyKeymap {
                keymap_source: "rdp-client",
                ..
            }
        ),
        "supported client HKL must enqueue an ApplyKeymap command"
    );
    assert_eq!(
        command,
        InputCommand::ApplyKeymap {
            keymap_data: b"de".to_vec(),
            keymap_source: "rdp-client"
        }
    );
}

#[test]
fn rdp_input_session_handle_keeps_existing_keymap_when_unknown() {
    let handle = RdpInputSessionHandle::new(KeyboardLayoutPolicy::Client);

    assert!(
        handle
            .set_keyboard_layout(0x0000ffff, true, names_for, generate)
            .is_none(),
        "unknown client HKL must not enqueue a keymap command"
    );
}

#[test]
fn compositor_policy_ignores_supported_client_layout() {
    let handle = RdpInputSessionHandle::new(KeyboardLayoutPolicy::Compositor);

    assert!(
        handle
            .set_keyboard_layout(0x00000407, true, names_for, generate)
            .is_none(),
        "compositor policy must not enqueue a keymap command"
    );
}

#[test]
fn rdp_input_session_handle_does_not_keep_input_actor_alive() {
    let handle = RdpInputSessionHandle::new(KeyboardLayoutPolicy::Client);

    assert!(handle
        .set_keyboard_layout(0x00000407, false, names_for, generate)
        .is_none());
    assert!(handle.session_ended(false).is_none());
}
