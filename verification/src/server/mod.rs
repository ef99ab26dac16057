pub mod accept;
pub mod hook_queue;
pub mod session_hooks;

use vstd::prelude::*;

use accept::{
    ironrdp_credentials, security_mode_for_credentials, sound_factory_for_audio_mode,
    ConfigCredentials, Credentials, ServerSecurityMode,
};
use session_hooks::{session_hooks_from_config, usable, HookCommands};

use crate::audio::AudioMode;
use crate::capture::display::DisplayConfig;
use crate::config::RuntimeConfig;
use crate::egfx::policy::EgfxCodecPolicy;
use crate::input::KeyboardLayoutPolicy;
use crate::text::{blank, is_white_space};

verus! {

/// What a server is put together from.
pub struct ServerPlan {
    pub bind: String,
    pub cert: Option<String>,
    pub key: Option<String>,
    pub credentials: Option<Credentials>,
    pub security: ServerSecurityMode,
    pub display: DisplayConfig,
    pub max_frames_in_flight: u32,
    pub egfx_codec: EgfxCodecPolicy,
    pub keyboard_layout_policy: KeyboardLayoutPolicy,
    /// The mode of the sound channel, where there is one.
    pub sound: Option<AudioMode>,
    /// The session commands, where there are any.
    pub hooks: Option<HookCommands>,
}

/// The credentials that a configuration sets: none where both parts are empty. One
/// part alone makes credentials too, although it is warned of.
pub open spec fn configured_credentials(username: String, password: String) -> Option<
    ConfigCredentials,
> {
    if username@.len() == 0 && password@.len() == 0 {
        None
    } else {
        Some(ConfigCredentials { username, password })
    }
}

fn config_credentials(username: String, password: String) -> (r: Option<ConfigCredentials>)
    ensures
        r == configured_credentials(username, password),
{
    let no_name: bool = username.as_str().is_empty();
    let no_password: bool = password.as_str().is_empty();
    if no_name && no_password {
        None
    } else {
        Some(ConfigCredentials { username, password })
    }
}

/// What a server is put together from under a configuration.
pub open spec fn is_plan(plan: ServerPlan, config: RuntimeConfig) -> bool {
    &&& plan.bind == config.bind
    &&& plan.cert == config.cert
    &&& plan.key == config.key
    &&& plan.credentials == match configured_credentials(config.username, config.password) {
        Some(c) => Some(Credentials { username: c.username, password: c.password, domain: None }),
        None => None,
    }
    &&& plan.security == if plan.credentials is Some {
        ServerSecurityMode::Hybrid
    } else {
        ServerSecurityMode::Tls
    }
    &&& plan.display == (DisplayConfig {
        resolution: config.resolution,
        capture_mode: config.capture_mode,
        bitrate: config.bitrate,
        quality: config.quality,
        rate_control: config.rate_control,
        fps: config.fps,
        resolution_fixed: config.resolution_fixed,
        output: config.output,
    })
    &&& plan.max_frames_in_flight == config.max_frames_in_flight
    &&& plan.egfx_codec == config.egfx_codec
    &&& plan.keyboard_layout_policy == config.keyboard_layout_policy
    &&& plan.sound == if config.audio_mode == AudioMode::Off {
        None
    } else {
        Some(config.audio_mode)
    }
    &&& match plan.hooks {
        Some(hooks) => {
            &&& hooks.on_session_start == usable(config.on_client_connect)
            &&& hooks.on_session_end == usable(config.on_client_disconnect)
            &&& hooks.on_session_start is Some || hooks.on_session_end is Some
        },
        None => usable(config.on_client_connect) is None && usable(
            config.on_client_disconnect,
        ) is None,
    }
}

/// Works out what a server is put together from.
pub fn setup(config: RuntimeConfig) -> (plan: ServerPlan)
    ensures
        is_plan(plan, config),
{
    let credentials = ironrdp_credentials(config_credentials(config.username, config.password));
    let security = security_mode_for_credentials(&credentials);
    ServerPlan {
        bind: config.bind,
        cert: config.cert,
        key: config.key,
        credentials,
        security,
        display: DisplayConfig {
            resolution: config.resolution,
            capture_mode: config.capture_mode,
            bitrate: config.bitrate,
            quality: config.quality,
            rate_control: config.rate_control,
            fps: config.fps,
            resolution_fixed: config.resolution_fixed,
            output: config.output,
        },
        max_frames_in_flight: config.max_frames_in_flight,
        egfx_codec: config.egfx_codec,
        keyboard_layout_policy: config.keyboard_layout_policy,
        sound: sound_factory_for_audio_mode(config.audio_mode),
        hooks: session_hooks_from_config(config.on_client_connect, config.on_client_disconnect),
    }
}

/// Whether text has a character that is more than space: a letter, a digit or a sign.
pub open spec fn has_sign(text: Seq<char>) -> bool {
    exists|i: int| 0 <= i < text.len() && 0x21 <= #[trigger] text[i] as int <= 0x7e
}

/// Whether text is nothing but blanks, tabs and line ends.
pub open spec fn is_spaces(text: Seq<char>) -> bool {
    forall|i: int|
        0 <= i < text.len() ==> #[trigger] text[i] as int == 0x20 || 9 <= text[i] as int <= 13
}

/// Every setting of the configuration reaches the part of the server that it is for.
pub proof fn every_setting_reaches_its_part(plan: ServerPlan, config: RuntimeConfig)
    requires
        is_plan(plan, config),
    ensures
        plan.bind == config.bind,
        plan.cert == config.cert,
        plan.key == config.key,
        plan.display.resolution == config.resolution,
        plan.display.resolution_fixed == config.resolution_fixed,
        plan.display.capture_mode == config.capture_mode,
        plan.display.output == config.output,
        plan.display.bitrate == config.bitrate,
        plan.display.quality == config.quality,
        plan.display.rate_control == config.rate_control,
        plan.display.fps == config.fps,
        plan.max_frames_in_flight == config.max_frames_in_flight,
        plan.egfx_codec == config.egfx_codec,
        plan.keyboard_layout_policy == config.keyboard_layout_policy,
{
}

/// Clients are asked to authenticate before the session exactly where a user name or a
/// password is set, and then with both as they are.
pub proof fn credentials_are_asked_for_where_they_are_set(plan: ServerPlan, config: RuntimeConfig)
    requires
        is_plan(plan, config),
    ensures
        plan.security == ServerSecurityMode::Hybrid <==> config.username@.len() > 0
            || config.password@.len() > 0,
        plan.credentials is Some <==> plan.security == ServerSecurityMode::Hybrid,
        plan.credentials is Some ==> {
            &&& plan.credentials->0.username@ == config.username@
            &&& plan.credentials->0.password@ == config.password@
            &&& plan.credentials->0.domain is None
        },
{
}

/// There is sound unless it is off, in the mode that is set.
pub proof fn sound_follows_the_audio_mode(plan: ServerPlan, config: RuntimeConfig)
    requires
        is_plan(plan, config),
    ensures
        match config.audio_mode {
            AudioMode::Off => plan.sound is None,
            AudioMode::Mirror => plan.sound == Some(AudioMode::Mirror),
            AudioMode::Redirect => plan.sound == Some(AudioMode::Redirect),
        },
{
}

/// A command that says something is run at its own end of a session, as it is; one that
/// is missing or only space is not run at all.
pub proof fn commands_are_run_at_their_own_end(plan: ServerPlan, config: RuntimeConfig)
    requires
        is_plan(plan, config),
    ensures
        config.on_client_connect is Some && has_sign(config.on_client_connect->0@)
            ==> plan.hooks is Some && plan.hooks->0.on_session_start == config.on_client_connect,
        config.on_client_disconnect is Some && has_sign(config.on_client_disconnect->0@)
            ==> plan.hooks is Some && plan.hooks->0.on_session_end == config.on_client_disconnect,
        plan.hooks is Some && (config.on_client_connect is None || is_spaces(
            config.on_client_connect->0@,
        )) ==> plan.hooks->0.on_session_start is None,
        plan.hooks is Some && (config.on_client_disconnect is None || is_spaces(
            config.on_client_disconnect->0@,
        )) ==> plan.hooks->0.on_session_end is None,
        (config.on_client_connect is None || is_spaces(config.on_client_connect->0@)) && (
        config.on_client_disconnect is None || is_spaces(config.on_client_disconnect->0@))
            ==> plan.hooks is None,
{
    if config.on_client_connect is Some {
        lemma_blank(config.on_client_connect->0@);
    }
    if config.on_client_disconnect is Some {
        lemma_blank(config.on_client_disconnect->0@);
    }
}

proof fn lemma_blank(text: Seq<char>)
    ensures
        has_sign(text) ==> !blank(text),
        is_spaces(text) ==> blank(text),
{
    if has_sign(text) {
        let i = choose|i: int| 0 <= i < text.len() && 0x21 <= #[trigger] text[i] as int <= 0x7e;
        assert(!is_white_space(text[i]));
    }
    if is_spaces(text) {
        assert forall|i: int| 0 <= i < text.len() implies is_white_space(#[trigger] text[i]) by {
            assert(text[i] as int == 0x20 || 9 <= text[i] as int <= 13);
        }
    }
}

} // verus!
