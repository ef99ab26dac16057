use std::time::Duration;

use hypr_rdp::audio::AudioMode;
use hypr_rdp::capture::CaptureMode;
use hypr_rdp::config::RuntimeConfig;
use hypr_rdp::egfx::policy::EgfxCodecPolicy;
use hypr_rdp::egfx::rate_control::H264RateControl;
use hypr_rdp::input::KeyboardLayoutPolicy;
use hypr_rdp::server::accept::{
    ironrdp_credentials, next_accept_step, security_mode_for_credentials,
    sound_factory_for_audio_mode, AcceptAction, AcceptEvent, AcceptState, BoundaryAction,
    ClientConnectionHandler, ConfigCredentials, ServerSecurityMode,
};
use hypr_rdp::server::hook_queue::{
    poll_pause, reap_until, HookAction, HookEvent, HookQueue, ProcessStatus, QueuePhase,
    RunningHook,
};
use hypr_rdp::server::session_hooks::{
    hook_command, session_hooks_from_config, HookCommands, HookJob, SessionHooks,
    SESSION_HOOK_DEADLINE_MS,
};
use hypr_rdp::server::setup;
use hypr_rdp::text::is_blank;

#[test]
fn server_maps_config_credentials_without_reclassifying_them() {
    assert_eq!(security_mode_for_credentials(&None), ServerSecurityMode::Tls);

    for (username, password) in [("user", "pass"), ("user", ""), ("", "pass")] {
        let credentials = ironrdp_credentials(Some(ConfigCredentials {
            username: username.into(),
            password: password.into(),
        }));
        assert_eq!(
            security_mode_for_credentials(&credentials),
            ServerSecurityMode::Hybrid
        );
        let credentials = credentials.as_ref().expect("configured credentials");

        assert_eq!(credentials.username, username);
        assert_eq!(credentials.password, password);
        assert_eq!(credentials.domain, None);
    }
    assert_eq!(ironrdp_credentials(None), None);
}

#[test]
fn audio_mode_off_disables_sound_factory_wiring() {
    assert!(sound_factory_for_audio_mode(AudioMode::Mirror).is_some());
    assert!(sound_factory_for_audio_mode(AudioMode::Redirect).is_some());
    assert!(sound_factory_for_audio_mode(AudioMode::Off).is_none());
    assert_eq!(
        sound_factory_for_audio_mode(AudioMode::Mirror),
        Some(AudioMode::Mirror)
    );
}

#[test]
fn missing_hook_commands_disable_connection_handler_wiring() {
    assert!(session_hooks_from_config(None, None).is_none());
    assert!(session_hooks_from_config(Some("true".into()), None).is_some());
    assert!(session_hooks_from_config(None, Some("true".into())).is_some());
}

#[test]
fn blank_hook_commands_count_as_missing() {
    assert!(session_hooks_from_config(Some(" \t\n".into()), Some("".into())).is_none());
    assert_eq!(
        session_hooks_from_config(Some("\u{2003}".into()), Some(" x ".into())),
        Some(HookCommands {
            on_session_start: None,
            on_session_end: Some(" x ".into())
        })
    );
}

#[test]
fn white_space_is_what_unicode_says() {
    for c in '\0'..=char::MAX {
        assert_eq!(is_blank(&c.to_string()), c.is_whitespace(), "{c:?}");
    }
}

#[test]
fn disconnecting_notifies_the_input_session_sink() {
    let mut handler = ClientConnectionHandler::new(None);

    let action = handler.on_disconnected();

    assert!(action.release_keys);
    assert_eq!(action.job, None);
}

#[test]
fn on_connection_info_forwards_keyboard_layout_to_sink() {
    let mut handler = ClientConnectionHandler::new(None);

    let action = handler.on_connection_info(0x00000407);

    assert_eq!(
        action,
        BoundaryAction {
            keyboard_layout: Some(0x00000407),
            release_keys: false,
            job: None
        }
    );
}

#[test]
fn both_session_boundaries_reach_the_hooks() {
    let mut handler = ClientConnectionHandler::new(Some(SessionHooks::new(true)));
    assert_eq!(handler.on_connection_info(0x409).job, Some(HookJob::SessionStart));
    assert_eq!(handler.on_disconnected().job, Some(HookJob::SessionEnd));
    assert_eq!(handler.on_disconnected().job, None);
}

#[test]
fn probe_disconnect_without_session_queues_no_jobs() {
    let mut hooks = SessionHooks::new(true);
    assert_eq!(hooks.session_ended(), None);
    assert_eq!(hooks.close(), None);
}

#[test]
fn session_lifecycle_queues_start_then_end_once() {
    let mut hooks = SessionHooks::new(true);
    assert_eq!(hooks.session_started(), Some(HookJob::SessionStart));
    assert_eq!(hooks.session_started(), None);
    assert_eq!(hooks.session_ended(), Some(HookJob::SessionEnd));
    assert_eq!(hooks.close(), None);
    assert_eq!(hooks.session_started(), Some(HookJob::SessionStart));
    assert_eq!(hooks.close(), Some(HookJob::SessionEnd));
    assert_eq!(hooks.close(), None);
}

#[test]
fn hooks_without_a_queue_only_track_the_session() {
    let mut hooks = SessionHooks::new(false);
    assert_eq!(hooks.session_started(), None);
    assert!(hooks.session_active);
    assert_eq!(hooks.session_ended(), None);
    assert!(!hooks.session_active);
}

fn queue(start: Option<&str>, end: Option<&str>, deadline: u64) -> HookQueue {
    HookQueue::new(
        HookCommands {
            on_session_start: start.map(str::to_string),
            on_session_end: end.map(str::to_string),
        },
        deadline,
    )
}

fn job(job: HookJob, now: u64) -> HookEvent {
    HookEvent::Job { job, shutting_down: false, now }
}

fn stopping(job: HookJob, now: u64) -> HookEvent {
    HookEvent::Job { job, shutting_down: true, now }
}

fn looked(status: ProcessStatus, now: u64) -> HookEvent {
    HookEvent::Looked { status, now }
}

fn started(process: u64, now: u64) -> HookEvent {
    HookEvent::Started { process: Some(process), now }
}

fn spawn(job: HookJob, command: &str) -> HookAction {
    HookAction::Spawn { job, command: command.to_string() }
}

#[test]
fn a_command_waits_for_the_one_before_it() {
    let mut hooks = queue(Some("s"), Some("e"), 100);
    assert_eq!(
        hooks.run_hook_queue(job(HookJob::SessionStart, 990)),
        spawn(HookJob::SessionStart, "s")
    );
    assert_eq!(hooks.run_hook_queue(started(7, 1000)), HookAction::Receive);
    assert_eq!(
        hooks.run_hook_queue(job(HookJob::SessionEnd, 1010)),
        HookAction::Look { process: 7 }
    );
    assert_eq!(
        hooks.run_hook_queue(looked(ProcessStatus::Running, 1099)),
        HookAction::Pause { process: 7, until: 1100 }
    );
    assert!(hooks.order.running.is_some());
    assert_eq!(
        hooks.run_hook_queue(looked(ProcessStatus::Exited, 1099)),
        spawn(HookJob::SessionEnd, "e")
    );
    assert!(hooks.order.running.is_none());
    assert!(hooks.stragglers.is_empty());
}

#[test]
fn an_overdue_command_is_left_running() {
    let mut hooks = queue(Some("s"), Some("e"), 100);
    hooks.run_hook_queue(job(HookJob::SessionStart, 1000));
    hooks.run_hook_queue(started(7, 1000));
    hooks.run_hook_queue(job(HookJob::SessionEnd, 1000));
    assert_eq!(
        hooks.run_hook_queue(looked(ProcessStatus::Running, 1100)),
        spawn(HookJob::SessionEnd, "e")
    );
    let left = RunningHook { job: HookJob::SessionStart, process: 7, started: 1000 };
    assert_eq!(hooks.stragglers, vec![left]);
    hooks.run_hook_queue(started(8, 1100));
    hooks.run_hook_queue(job(HookJob::SessionStart, 1100));
    assert_eq!(
        hooks.run_hook_queue(looked(ProcessStatus::Lost, 1101)),
        spawn(HookJob::SessionStart, "s")
    );
    assert_eq!(hooks.stragglers, vec![left]);
    hooks.reap_finished(&[ProcessStatus::Running]);
    assert_eq!(hooks.stragglers, vec![left]);
    hooks.reap_finished(&[ProcessStatus::Exited]);
    assert!(hooks.stragglers.is_empty());
}

#[test]
fn a_command_that_could_not_be_started_delays_nothing() {
    let mut hooks = queue(Some("s"), Some("e"), 100);
    hooks.run_hook_queue(job(HookJob::SessionStart, 1000));
    let failed = HookEvent::Started { process: None, now: 1000 };
    assert_eq!(hooks.run_hook_queue(failed), HookAction::Receive);
    assert_eq!(
        hooks.run_hook_queue(job(HookJob::SessionEnd, 1000)),
        spawn(HookJob::SessionEnd, "e")
    );
}

#[test]
fn a_fast_reconnect_starts_its_commands_in_order() {
    let mut hooks = queue(Some("s"), Some("e"), 100);
    let jobs = [
        HookJob::SessionStart,
        HookJob::SessionEnd,
        HookJob::SessionStart,
        HookJob::SessionEnd,
    ];
    let mut spawned = Vec::new();
    for (i, &next) in jobs.iter().enumerate() {
        let mut action = hooks.run_hook_queue(job(next, 1000));
        if i > 0 {
            assert_eq!(action, HookAction::Look { process: i as u64 - 1 });
            action = hooks.run_hook_queue(looked(ProcessStatus::Exited, 1000));
        }
        match action {
            HookAction::Spawn { job, .. } => spawned.push(job),
            other => panic!("unexpected {other:?}"),
        }
        assert_eq!(hooks.run_hook_queue(started(i as u64, 1000)), HookAction::Receive);
    }
    assert_eq!(spawned, jobs);
}

#[test]
fn reaping_keeps_the_order_of_what_still_runs() {
    let mut hooks = queue(None, None, 100);
    for process in 0..4 {
        hooks.stragglers.push(RunningHook {
            job: HookJob::SessionStart,
            process,
            started: 0,
        });
    }
    hooks.reap_finished(&[
        ProcessStatus::Running,
        ProcessStatus::Exited,
        ProcessStatus::Lost,
        ProcessStatus::Running,
    ]);
    let left: Vec<u64> = hooks.stragglers.iter().map(|hook| hook.process).collect();
    assert_eq!(left, vec![0, 3]);
}

#[test]
fn a_job_without_a_command_leaves_the_running_one_in_place() {
    let mut hooks = queue(Some("s"), None, 100);
    hooks.run_hook_queue(job(HookJob::SessionStart, 1000));
    hooks.run_hook_queue(started(7, 1000));
    assert_eq!(hooks.run_hook_queue(job(HookJob::SessionEnd, 1001)), HookAction::Receive);
    assert!(hooks.order.running.is_some());
    assert_eq!(hooks.order.drain_until, None);
    assert_eq!(
        hooks.run_hook_queue(job(HookJob::SessionStart, 1002)),
        HookAction::Look { process: 7 }
    );
}

#[test]
fn a_stopping_server_shares_one_budget_among_the_commands() {
    let mut hooks = queue(Some("s"), Some("e"), 100);
    hooks.run_hook_queue(job(HookJob::SessionStart, 1000));
    hooks.run_hook_queue(started(7, 1000));
    hooks.run_hook_queue(stopping(HookJob::SessionEnd, 1050));
    assert_eq!(hooks.order.drain_until, Some(1150));
    assert_eq!(
        hooks.run_hook_queue(looked(ProcessStatus::Running, 1060)),
        HookAction::Pause { process: 7, until: 1100 }
    );
    assert_eq!(
        hooks.run_hook_queue(looked(ProcessStatus::Running, 1100)),
        spawn(HookJob::SessionEnd, "e")
    );
    hooks.run_hook_queue(started(8, 1120));
    hooks.run_hook_queue(stopping(HookJob::SessionStart, 1140));
    assert_eq!(hooks.order.drain_until, Some(1150));
    assert_eq!(
        hooks.run_hook_queue(looked(ProcessStatus::Running, 1149)),
        HookAction::Pause { process: 8, until: 1150 }
    );
    assert_eq!(
        hooks.run_hook_queue(looked(ProcessStatus::Running, 1150)),
        spawn(HookJob::SessionStart, "s")
    );
    assert_eq!(hooks.stragglers.len(), 2);
}

#[test]
fn a_stopping_server_waits_for_an_end_command_only() {
    let mut idle = queue(Some("s"), Some("e"), 100);
    assert_eq!(idle.run_hook_queue(HookEvent::Ended), HookAction::Drained);

    let mut ending = queue(Some("s"), Some("e"), 100);
    ending.run_hook_queue(job(HookJob::SessionEnd, 0));
    ending.run_hook_queue(started(8, 0));
    assert_eq!(ending.run_hook_queue(HookEvent::Ended), HookAction::Look { process: 8 });
    assert_eq!(
        ending.run_hook_queue(looked(ProcessStatus::Running, 99)),
        HookAction::Pause { process: 8, until: 100 }
    );
    assert_eq!(
        ending.run_hook_queue(looked(ProcessStatus::Running, 100)),
        HookAction::Drained
    );
    assert_eq!(ending.stragglers.len(), 1);

    let mut starting = queue(Some("s"), Some("e"), 100);
    starting.run_hook_queue(job(HookJob::SessionStart, 0));
    starting.run_hook_queue(started(9, 0));
    assert_eq!(starting.run_hook_queue(HookEvent::Ended), HookAction::Drained);
    assert!(starting.order.running.is_none());
    assert_eq!(starting.stragglers.len(), 1);
}

#[test]
fn an_event_out_of_place_changes_nothing() {
    let mut hooks = queue(Some("s"), Some("e"), 100);
    assert_eq!(hooks.run_hook_queue(started(7, 0)), HookAction::Nothing);
    assert_eq!(
        hooks.run_hook_queue(looked(ProcessStatus::Exited, 0)),
        HookAction::Nothing
    );
    hooks.run_hook_queue(job(HookJob::SessionStart, 0));
    assert_eq!(
        hooks.run_hook_queue(job(HookJob::SessionEnd, 0)),
        HookAction::Nothing
    );
    assert_eq!(hooks.run_hook_queue(HookEvent::Ended), HookAction::Nothing);
    assert_eq!(hooks.order.phase, QueuePhase::Spawning(HookJob::SessionStart));
}

#[test]
fn start_only_configuration_skips_the_ordered_wait() {
    let command = "exec sleep 30 >/dev/null 2>&1";
    let mut session = SessionHooks::new(true);
    let mut hooks = queue(Some(command), None, 10_000);

    let start = session.session_started().expect("a job for the start");
    assert_eq!(hooks.run_hook_queue(job(start, 0)), spawn(HookJob::SessionStart, command));
    assert_eq!(hooks.run_hook_queue(started(1, 0)), HookAction::Receive);
    let end = session.session_ended().expect("a job for the end");
    assert_eq!(hooks.run_hook_queue(job(end, 0)), HookAction::Receive);

    assert_eq!(session.close(), None);
    assert_eq!(
        hooks.run_hook_queue(HookEvent::Ended),
        HookAction::Drained,
        "no end command configured, so nothing may wait on the start command"
    );
    let left: Vec<u64> = hooks.stragglers.iter().map(|hook| hook.process).collect();
    assert_eq!(left, vec![1]);
}

#[test]
fn pauses_never_pass_the_time_that_is_waited_for() {
    assert_eq!(poll_pause(100, 1000), 50);
    assert_eq!(poll_pause(960, 1000), 40);
    assert_eq!(poll_pause(1000, 1000), 0);
    assert_eq!(poll_pause(1001, 1000), 0);
    assert_eq!(reap_until(1000), 1200);
}

#[test]
fn the_session_hook_deadline_stays_short_enough_for_a_service_stop() {
    // The constant bounds the ordering wait and the shutdown drain.
    let deadline = Duration::from_millis(SESSION_HOOK_DEADLINE_MS);
    assert!(deadline >= Duration::from_secs(1));
    assert!(deadline <= Duration::from_secs(30));
}

#[test]
fn a_hook_runs_in_the_shell_with_its_instance() {
    let command = hook_command("true", Some("resolved-sig".into()));
    assert_eq!(command.program, "/bin/sh");
    assert_eq!(command.flag, "-c");
    assert_eq!(command.command, "true");
    assert_eq!(
        command.instance,
        Some((
            "HYPRLAND_INSTANCE_SIGNATURE".to_string(),
            "resolved-sig".to_string()
        ))
    );
    assert_eq!(hook_command("true", None).instance, None);
}

#[test]
fn one_session_runs_at_a_time() {
    let mut state = AcceptState::Idle;
    let mut actions = Vec::new();
    for event in [
        AcceptEvent::AcceptFailed,
        AcceptEvent::Accepted,
        AcceptEvent::Accepted,
        AcceptEvent::AcceptFailed,
        AcceptEvent::Accepted,
        AcceptEvent::SessionEnded,
        AcceptEvent::SessionEnded,
        AcceptEvent::Accepted,
    ] {
        let (next, action) = next_accept_step(state, event);
        state = next;
        actions.push(action);
    }
    assert_eq!(
        actions,
        vec![
            AcceptAction::PauseMs(50),
            AcceptAction::RunSession,
            AcceptAction::Reject,
            AcceptAction::PauseMs(50),
            AcceptAction::Reject,
            AcceptAction::ReportEnd,
            AcceptAction::Nothing,
            AcceptAction::RunSession,
        ]
    );
    assert_eq!(state, AcceptState::Serving);
}

fn runtime_config(username: &str, password: &str) -> RuntimeConfig {
    RuntimeConfig {
        bind: "b".into(),
        cert: Some("c".into()),
        key: None,
        username: username.into(),
        password: password.into(),
        resolution: (800, 600),
        capture_mode: CaptureMode::Ext,
        bitrate: 1,
        quality: 2,
        rate_control: H264RateControl::Cqp,
        fps: 3,
        max_frames_in_flight: 4,
        egfx_codec: EgfxCodecPolicy::Auto,
        keyboard_layout_policy: KeyboardLayoutPolicy::Compositor,
        audio_mode: AudioMode::Off,
        resolution_fixed: true,
        output: Some("DP-1".into()),
        on_client_connect: Some(" ".into()),
        on_client_disconnect: Some("e".into()),
    }
}

#[test]
fn a_server_is_put_together_from_its_configuration() {
    let plan = setup(runtime_config("", ""));
    assert_eq!(plan.credentials, None);
    assert_eq!(plan.security, ServerSecurityMode::Tls);
    assert_eq!(plan.sound, None);
    assert_eq!(plan.bind, "b");
    assert_eq!(plan.cert.as_deref(), Some("c"));
    assert_eq!(plan.display.resolution, (800, 600));
    assert_eq!(plan.display.output.as_deref(), Some("DP-1"));
    assert!(plan.display.resolution_fixed);
    assert_eq!(plan.max_frames_in_flight, 4);
    assert_eq!(
        plan.hooks,
        Some(HookCommands {
            on_session_start: None,
            on_session_end: Some("e".into())
        })
    );
    let plan = setup(runtime_config("u", ""));
    assert_eq!(plan.security, ServerSecurityMode::Hybrid);
    assert_eq!(plan.credentials.expect("credentials").username, "u");
}
