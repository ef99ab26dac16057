//! Optional commands for the start and the end of sessions.
//!
//! Sessions report their start and end, balanced or not; jobs are queued in
//! balance.
use vstd::prelude::*;

use crate::text::{blank, is_blank};

verus! {

/// What a session asks the hook queue for.
#[derive(Clone, Copy, Debug, PartialEq, Eq, Structural)]
pub enum HookJob {
    SessionStart,
    SessionEnd,
}

/// How long a command keeps the next one waiting, in milliseconds.
pub const SESSION_HOOK_DEADLINE_MS: u64 = 10_000;

/// How often a running command is looked at, in milliseconds.
pub const HOOK_POLL_INTERVAL_MS: u64 = 50;

/// What happens to a session.
#[derive(Clone, Copy, Debug, PartialEq, Eq, Structural)]
pub enum SessionEvent {
    Started,
    Ended,
    /// The server stops.
    Closed,
}

/// The commands of a session.
#[derive(Debug, PartialEq, Eq)]
pub struct HookCommands {
    pub on_session_start: Option<String>,
    pub on_session_end: Option<String>,
}

/// The commands as far as they are not blank.
pub open spec fn usable(command: Option<String>) -> Option<String> {
    if command is Some && !blank(command->0@) {
        command
    } else {
        None
    }
}

fn keep_usable(command: Option<String>) -> (r: Option<String>)
    ensures
        r == usable(command),
{
    match command {
        Some(c) => {
            if is_blank(c.as_str()) {
                None
            } else {
                Some(c)
            }
        },
        None => None,
    }
}

/// The hooks of a configuration; none where both commands are missing or blank.
pub fn session_hooks_from_config(
    on_session_start: Option<String>,
    on_session_end: Option<String>,
) -> (r: Option<HookCommands>)
    ensures
        r == if usable(on_session_start) is None && usable(on_session_end) is None {
            None
        } else {
            Some(
                HookCommands {
                    on_session_start: usable(on_session_start),
                    on_session_end: usable(on_session_end),
                },
            )
        },
{
    let on_session_start = keep_usable(on_session_start);
    let on_session_end = keep_usable(on_session_end);
    if on_session_start.is_none() && on_session_end.is_none() {
        return None;
    }
    Some(HookCommands { on_session_start, on_session_end })
}

/// Whether a session is active, and whether there is a queue to send jobs to.
#[derive(Clone, Copy, Debug, PartialEq, Eq, Structural)]
pub struct SessionHooks {
    pub session_active: bool,
    pub has_queue: bool,
}

/// What an event leads to: whether a session is active after it, and the job
/// that it queues. A second start or end queues nothing.
pub open spec fn hook_step(active: bool, event: SessionEvent) -> (bool, Option<HookJob>) {
    match event {
        SessionEvent::Started => (
            true,
            if active {
                None
            } else {
                Some(HookJob::SessionStart)
            },
        ),
        SessionEvent::Ended | SessionEvent::Closed => (
            false,
            if active {
                Some(HookJob::SessionEnd)
            } else {
                None
            },
        ),
    }
}

impl SessionHooks {
    /// The hooks before any session. Without a queue nothing is ever sent.
    pub fn new(has_queue: bool) -> (r: Self)
        ensures
            r == (SessionHooks { session_active: false, has_queue }),
    {
        SessionHooks { session_active: false, has_queue }
    }

    /// What an event makes of the hooks.
    pub open spec fn after(self, event: SessionEvent) -> SessionHooks {
        SessionHooks {
            session_active: hook_step(self.session_active, event).0,
            has_queue: self.has_queue,
        }
    }

    /// The job that an event sends.
    pub open spec fn job_for(self, event: SessionEvent) -> Option<HookJob> {
        if self.has_queue {
            hook_step(self.session_active, event).1
        } else {
            None
        }
    }

    fn send(&self, job: HookJob) -> (r: Option<HookJob>)
        ensures
            r == if self.has_queue {
                Some(job)
            } else {
                None
            },
    {
        if self.has_queue {
            Some(job)
        } else {
            None
        }
    }

    /// A session started. The result is the job to queue, if any.
    pub fn session_started(&mut self) -> (r: Option<HookJob>)
        ensures
            *final(self) == old(self).after(SessionEvent::Started),
            r == old(self).job_for(SessionEvent::Started),
    {
        if self.session_active {
            return None;
        }
        self.session_active = true;
        self.send(HookJob::SessionStart)
    }

    /// A session ended. The result is the job to queue, if any.
    pub fn session_ended(&mut self) -> (r: Option<HookJob>)
        ensures
            *final(self) == old(self).after(SessionEvent::Ended),
            r == old(self).job_for(SessionEvent::Ended),
    {
        if !self.session_active {
            return None;
        }
        self.session_active = false;
        self.send(HookJob::SessionEnd)
    }

    /// The server stops: a session that is still active ends.
    pub fn close(&mut self) -> (r: Option<HookJob>)
        ensures
            *final(self) == old(self).after(SessionEvent::Closed),
            r == old(self).job_for(SessionEvent::Closed),
    {
        if self.session_active {
            self.session_active = false;
            self.send(HookJob::SessionEnd)
        } else {
            None
        }
    }
}

/// Whether a session is active after a history of events.
pub open spec fn active_after(events: Seq<SessionEvent>) -> bool
    decreases events.len(),
{
    if events.len() == 0 {
        false
    } else {
        hook_step(active_after(events.drop_last()), events.last()).0
    }
}

/// The jobs that a history of events queues.
pub open spec fn jobs_of(events: Seq<SessionEvent>) -> Seq<HookJob>
    decreases events.len(),
{
    if events.len() == 0 {
        seq![]
    } else {
        let before = jobs_of(events.drop_last());
        match hook_step(active_after(events.drop_last()), events.last()).1 {
            Some(job) => before.push(job),
            None => before,
        }
    }
}

/// Whatever sessions report, start and end jobs alternate, beginning with a
/// start; a start is still open exactly while a session is active.
pub proof fn jobs_alternate(events: Seq<SessionEvent>)
    ensures
        forall|i: int|
            0 <= i < jobs_of(events).len() ==> #[trigger] jobs_of(events)[i] == if i % 2 == 0 {
                HookJob::SessionStart
            } else {
                HookJob::SessionEnd
            },
        active_after(events) <==> jobs_of(events).len() % 2 == 1,
    decreases events.len(),
{
    if events.len() > 0 {
        jobs_alternate(events.drop_last());
    }
}

/// Once the server stops, every start job has its end job.
pub proof fn stopping_completes_the_pair(events: Seq<SessionEvent>)
    ensures
        jobs_of(events.push(SessionEvent::Closed)).len() % 2 == 0,
{
    jobs_alternate(events.push(SessionEvent::Closed));
    assert(events.push(SessionEvent::Closed).drop_last() =~= events);
}

/// An event that is reported twice in a row counts once.
pub proof fn repeated_events_queue_one_job(events: Seq<SessionEvent>, event: SessionEvent)
    ensures
        jobs_of(events.push(event).push(event)) == jobs_of(events.push(event)),
{
    assert(events.push(event).push(event).drop_last() =~= events.push(event));
    assert(events.push(event).drop_last() =~= events);
}

/// An end without a session queues nothing.
pub proof fn a_disconnect_without_a_session_queues_nothing(events: Seq<SessionEvent>)
    requires
        forall|i: int| 0 <= i < events.len() ==> #[trigger] events[i] != SessionEvent::Started,
    ensures
        jobs_of(events) == Seq::<HookJob>::empty(),
        !active_after(events),
    decreases events.len(),
{
    if events.len() > 0 {
        assert forall|i: int| 0 <= i < events.drop_last().len() implies #[trigger] events.drop_last()[i]
            != SessionEvent::Started by {
            assert(events[i] != SessionEvent::Started);
        }
        a_disconnect_without_a_session_queues_nothing(events.drop_last());
        assert(events[events.len() - 1] != SessionEvent::Started);
    }
}

/// How a hook command is run: by the shell, with the compositor instance in its
/// environment where one is known.
#[derive(Debug, PartialEq, Eq)]
pub struct HookCommand {
    pub program: String,
    pub flag: String,
    pub command: String,
    pub instance: Option<(String, String)>,
}

/// The shell call of a hook command.
pub open spec fn is_hook_command(
    call: HookCommand,
    command: Seq<char>,
    instance: Option<String>,
) -> bool {
    &&& call.program@ == "/bin/sh"@
    &&& call.flag@ == "-c"@
    &&& call.command@ == command
    &&& match (instance, call.instance) {
        (Some(signature), Some((name, value))) => {
            name@ == "HYPRLAND_INSTANCE_SIGNATURE"@ && value == signature
        },
        (None, None) => true,
        _ => false,
    }
}

/// The shell call of a hook command.
pub fn hook_command(command: &str, instance: Option<String>) -> (r: HookCommand)
    ensures
        is_hook_command(r, command@, instance),
{
    HookCommand {
        program: "/bin/sh".to_owned(),
        flag: "-c".to_owned(),
        command: command.to_owned(),
        instance: match instance {
            Some(signature) => Some(("HYPRLAND_INSTANCE_SIGNATURE".to_owned(), signature)),
            None => None,
        },
    }
}

/// A command is handed to the shell as it is, and is told the compositor instance
/// exactly where one is known.
pub proof fn how_a_command_is_run(
    call: HookCommand,
    command: Seq<char>,
    instance: Option<String>,
)
    requires
        is_hook_command(call, command, instance),
    ensures
        call.program@ == "/bin/sh"@ && call.flag@ == "-c"@ && call.command@ == command,
        call.instance is Some <==> instance is Some,
        match call.instance {
            Some((name, value)) => name@ == "HYPRLAND_INSTANCE_SIGNATURE"@ && value@
                == instance->0@,
            None => true,
        },
{
}

/// Jobs are sent only where there is a queue, and whether a session is active is kept
/// either way.
pub proof fn jobs_need_a_queue(hooks: SessionHooks, event: SessionEvent)
    ensures
        !hooks.has_queue ==> hooks.job_for(event) is None,
        hooks.after(event).has_queue == hooks.has_queue,
        match event {
            SessionEvent::Started => {
                &&& hooks.after(event).session_active
                &&& hooks.has_queue && !hooks.session_active ==> hooks.job_for(event) == Some(
                    HookJob::SessionStart,
                )
                &&& hooks.session_active ==> hooks.job_for(event) is None
            },
            SessionEvent::Ended | SessionEvent::Closed => {
                &&& !hooks.after(event).session_active
                &&& hooks.has_queue && hooks.session_active ==> hooks.job_for(event) == Some(
                    HookJob::SessionEnd,
                )
                &&& !hooks.session_active ==> hooks.job_for(event) is None
            },
        },
{
}

} // verus!
