//! Ordered running of session commands.
//!
//! Commands run one after the other with a bounded wait: a command is started
//! only once the one before it has ended or is overdue. An overdue command is
//! left running and reaped if it exits before the server does. Times are
//! milliseconds of a clock that never goes back.
//!
//! Processes are started and looked at by whoever owns them: the queue is told
//! what happened, and answers with what is to be done next.
use vstd::prelude::*;

use super::session_hooks::{
    HookCommands, HookJob, HOOK_POLL_INTERVAL_MS, SESSION_HOOK_DEADLINE_MS,
};

verus! {

/// A command that was started, known by the number of its process.
#[derive(Clone, Copy, Debug, PartialEq, Eq, Structural)]
pub struct RunningHook {
    pub job: HookJob,
    pub process: u64,
    pub started: u64,
}

/// What a look at a process shows.
#[derive(Clone, Copy, Debug, PartialEq, Eq, Structural)]
pub enum ProcessStatus {
    Running,
    Exited,
    /// The process cannot be waited for.
    Lost,
}

/// What follows from a look at a command that is waited for.
#[derive(Clone, Copy, Debug, PartialEq, Eq, Structural)]
pub enum FinishStep {
    /// It ended, or is lost.
    Done,
    /// It is overdue and is left running.
    Overdue,
    /// It is waited for further.
    Wait,
}

/// What the queue is about.
#[derive(Clone, Copy, Debug, PartialEq, Eq, Structural)]
pub enum QueuePhase {
    /// It is ready for the next job.
    Receiving,
    /// The command of a job waits for the one before it.
    Waiting(HookJob),
    /// The command of a job is being started.
    Spawning(HookJob),
    /// The server stops, and the last command is waited for.
    Closing,
    /// Nothing is left to do.
    Closed,
}

/// What happens to the queue.
#[derive(Clone, Copy, Debug, PartialEq, Eq, Structural)]
pub enum HookEvent {
    /// A job was received, at a time when the server stops or not.
    Job { job: HookJob, shutting_down: bool, now: u64 },
    /// The running command was looked at.
    Looked { status: ProcessStatus, now: u64 },
    /// A command was started; there is no process where that failed.
    Started { process: Option<u64>, now: u64 },
    /// No job will come any more.
    Ended,
}

/// What is to be done next.
#[derive(Debug, PartialEq, Eq)]
pub enum HookAction {
    /// Receive the next job.
    Receive,
    /// Look at a running command.
    Look { process: u64 },
    /// Pause, for no longer than until the time given, and look again.
    Pause { process: u64, until: u64 },
    /// Start the command of a job.
    Spawn { job: HookJob, command: String },
    /// Nothing is left but to reap what still runs.
    Drained,
    /// The event does not belong to what the queue is about: nothing changes.
    Nothing,
}

/// The part of the queue that the order of commands rests on.
#[derive(Clone, Copy, Debug, PartialEq, Eq, Structural)]
pub struct QueueOrder {
    /// The command that the next one has to wait for.
    pub running: Option<RunningHook>,
    /// By when the queue is drained once the server stops.
    pub drain_until: Option<u64>,
    pub phase: QueuePhase,
}

/// The queue of commands.
#[derive(Debug)]
pub struct HookQueue {
    pub commands: HookCommands,
    pub deadline: u64,
    pub order: QueueOrder,
    /// Overdue commands that were left running.
    pub stragglers: Vec<RunningHook>,
}

/// The command of a job.
pub open spec fn command_of(commands: HookCommands, job: HookJob) -> Option<String> {
    match job {
        HookJob::SessionStart => commands.on_session_start,
        HookJob::SessionEnd => commands.on_session_end,
    }
}

/// Until when a command is waited for: its own deadline, and while the server
/// stops, the one that all remaining commands share.
pub open spec fn wait_limit(hook: RunningHook, deadline: u64, drain_until: Option<u64>) -> int {
    let own = hook.started + deadline;
    match drain_until {
        Some(drain) => if own <= drain {
            own
        } else {
            drain as int
        },
        None => own,
    }
}

/// What follows from a look at a command that is waited for.
pub open spec fn finish_outcome(
    hook: RunningHook,
    deadline: u64,
    drain_until: Option<u64>,
    status: ProcessStatus,
    now: u64,
) -> FinishStep {
    if status != ProcessStatus::Running {
        FinishStep::Done
    } else if now < wait_limit(hook, deadline, drain_until) {
        FinishStep::Wait
    } else {
        FinishStep::Overdue
    }
}

/// The order of a queue that nothing has happened to.
pub open spec fn fresh_order() -> QueueOrder {
    QueueOrder { running: None, drain_until: None, phase: QueuePhase::Receiving }
}

/// A command is about to be started.
pub open spec fn spawning(commands: HookCommands, o: QueueOrder, job: HookJob) -> (
    QueueOrder,
    HookAction,
) {
    (
        QueueOrder { running: None, phase: QueuePhase::Spawning(job), ..o },
        HookAction::Spawn { job, command: command_of(commands, job)->0 },
    )
}

/// A job is received. The first after the server begins to stop sets the time by
/// which the queue is drained. A job without a command leaves the running command
/// in its place, so that a later command is still ordered after it.
pub open spec fn after_job(
    commands: HookCommands,
    deadline: u64,
    o: QueueOrder,
    job: HookJob,
    shutting_down: bool,
    now: u64,
) -> (QueueOrder, HookAction) {
    let o = QueueOrder {
        drain_until: if o.drain_until is None && shutting_down {
            Some((now + deadline) as u64)
        } else {
            o.drain_until
        },
        ..o
    };
    if command_of(commands, job) is None {
        (o, HookAction::Receive)
    } else {
        match o.running {
            Some(hook) => (
                QueueOrder { phase: QueuePhase::Waiting(job), ..o },
                HookAction::Look { process: hook.process },
            ),
            None => spawning(commands, o, job),
        }
    }
}

/// The running command is looked at while one waits for it, or the server does.
pub open spec fn after_look(
    commands: HookCommands,
    deadline: u64,
    o: QueueOrder,
    status: ProcessStatus,
    now: u64,
) -> (QueueOrder, HookAction) {
    let waits = o.running is Some && finish_outcome(
        o.running->0,
        deadline,
        o.drain_until,
        status,
        now,
    ) == FinishStep::Wait;
    if o.phase !is Waiting && o.phase !is Closing {
        (o, HookAction::Nothing)
    } else if waits {
        (
            o,
            HookAction::Pause {
                process: o.running->0.process,
                until: wait_limit(o.running->0, deadline, o.drain_until) as u64,
            },
        )
    } else {
        match o.phase {
            QueuePhase::Waiting(job) => spawning(commands, o, job),
            _ => (
                QueueOrder { running: None, phase: QueuePhase::Closed, ..o },
                HookAction::Drained,
            ),
        }
    }
}

/// No job comes any more: only an end command is still waited for.
pub open spec fn after_end(o: QueueOrder) -> (QueueOrder, HookAction) {
    match o.running {
        Some(hook) if hook.job == HookJob::SessionEnd => (
            QueueOrder { phase: QueuePhase::Closing, ..o },
            HookAction::Look { process: hook.process },
        ),
        _ => (
            QueueOrder { running: None, phase: QueuePhase::Closed, ..o },
            HookAction::Drained,
        ),
    }
}

/// What an event leads to: the order after it, and what is to be done next.
pub open spec fn queue_step(
    commands: HookCommands,
    deadline: u64,
    o: QueueOrder,
    event: HookEvent,
) -> (QueueOrder, HookAction) {
    match (event, o.phase) {
        (HookEvent::Job { job, shutting_down, now }, QueuePhase::Receiving) => after_job(
            commands,
            deadline,
            o,
            job,
            shutting_down,
            now,
        ),
        (HookEvent::Looked { status, now }, _) => after_look(commands, deadline, o, status, now),
        (HookEvent::Started { process, now }, QueuePhase::Spawning(job)) => (
            QueueOrder {
                running: match process {
                    Some(process) => Some(RunningHook { job, process, started: now }),
                    None => None,
                },
                phase: QueuePhase::Receiving,
                ..o
            },
            HookAction::Receive,
        ),
        (HookEvent::Ended, QueuePhase::Receiving) => after_end(o),
        _ => (o, HookAction::Nothing),
    }
}

/// The command that an event puts with the stragglers: one that was running, is
/// running no more for the queue, and was not seen to end.
pub open spec fn left_running(
    commands: HookCommands,
    deadline: u64,
    o: QueueOrder,
    event: HookEvent,
) -> Option<RunningHook> {
    let ended = event is Looked && event->Looked_status != ProcessStatus::Running;
    if o.running is Some && queue_step(commands, deadline, o, event).0.running is None && !ended {
        o.running
    } else {
        None
    }
}

impl HookEvent {
    /// The time of an event leaves room for a deadline after it.
    pub open spec fn in_time(&self, deadline: u64) -> bool {
        match self {
            HookEvent::Job { now, .. } => now + deadline <= u64::MAX,
            HookEvent::Started { now, .. } => now + deadline <= u64::MAX,
            _ => true,
        }
    }
}

/// Those of `hooks` that still run.
pub open spec fn still_running(hooks: Seq<RunningHook>, statuses: Seq<ProcessStatus>) -> Seq<
    RunningHook,
>
    decreases hooks.len(),
{
    if hooks.len() == 0 || statuses.len() == 0 {
        seq![]
    } else {
        let before = still_running(hooks.drop_last(), statuses.drop_last());
        if statuses.last() == ProcessStatus::Running {
            before.push(hooks.last())
        } else {
            before
        }
    }
}

impl HookQueue {
    /// The deadline of the running command can be told, a command that waits has
    /// one, and one waits only for a command that runs.
    pub open spec fn wf(&self) -> bool {
        &&& self.order.running is Some ==> self.order.running->0.started + self.deadline
            <= u64::MAX
        &&& match self.order.phase {
            QueuePhase::Waiting(job) => self.order.running is Some && command_of(
                self.commands,
                job,
            ) is Some,
            QueuePhase::Spawning(_) => self.order.running is None,
            QueuePhase::Closing => self.order.running is Some,
            _ => true,
        }
    }

    /// A queue with nothing to wait for.
    pub fn new(commands: HookCommands, deadline: u64) -> (r: Self)
        ensures
            r.wf(),
            r.commands == commands,
            r.deadline == deadline,
            r.order == fresh_order(),
            r.stragglers@ == Seq::<RunningHook>::empty(),
    {
        HookQueue {
            commands,
            deadline,
            order: QueueOrder { running: None, drain_until: None, phase: QueuePhase::Receiving },
            stragglers: Vec::new(),
        }
    }

    fn command(&self, job: HookJob) -> (r: Option<String>)
        ensures
            r == command_of(self.commands, job),
    {
        let command = match job {
            HookJob::SessionStart => &self.commands.on_session_start,
            HookJob::SessionEnd => &self.commands.on_session_end,
        };
        match command {
            Some(c) => Some(c.clone()),
            None => None,
        }
    }

    fn wait_until(&self, hook: RunningHook) -> (r: u64)
        requires
            hook.started + self.deadline <= u64::MAX,
        ensures
            r == wait_limit(hook, self.deadline, self.order.drain_until),
    {
        let own: u64 = hook.started + self.deadline;
        match self.order.drain_until {
            Some(drain) => {
                if own <= drain {
                    own
                } else {
                    drain
                }
            },
            None => own,
        }
    }

    fn finish_running(&self, hook: RunningHook, status: ProcessStatus, now: u64) -> (r: FinishStep)
        requires
            hook.started + self.deadline <= u64::MAX,
        ensures
            r == finish_outcome(hook, self.deadline, self.order.drain_until, status, now),
    {
        match status {
            ProcessStatus::Exited | ProcessStatus::Lost => FinishStep::Done,
            ProcessStatus::Running => {
                if now < self.wait_until(hook) {
                    FinishStep::Wait
                } else {
                    FinishStep::Overdue
                }
            },
        }
    }

    fn receive(&mut self, job: HookJob, shutting_down: bool, now: u64) -> (r: HookAction)
        requires
            old(self).wf(),
            old(self).order.phase == QueuePhase::Receiving,
            now + old(self).deadline <= u64::MAX,
        ensures
            final(self).wf(),
            (final(self).order, r) == after_job(
                old(self).commands,
                old(self).deadline,
                old(self).order,
                job,
                shutting_down,
                now,
            ),
            final(self).stragglers@ == old(self).stragglers@,
            final(self).commands == old(self).commands,
            final(self).deadline == old(self).deadline,
    {
        if self.order.drain_until.is_none() && shutting_down {
            self.order.drain_until = Some(now + self.deadline);
        }
        match self.command(job) {
            None => HookAction::Receive,
            Some(command) => match self.order.running {
                Some(hook) => {
                    self.order.phase = QueuePhase::Waiting(job);
                    HookAction::Look { process: hook.process }
                },
                None => {
                    self.order.phase = QueuePhase::Spawning(job);
                    HookAction::Spawn { job, command }
                },
            },
        }
    }

    fn look(&mut self, status: ProcessStatus, now: u64) -> (r: HookAction)
        requires
            old(self).wf(),
        ensures
            final(self).wf(),
            (final(self).order, r) == after_look(
                old(self).commands,
                old(self).deadline,
                old(self).order,
                status,
                now,
            ),
            final(self).stragglers@ == match left_running(
                old(self).commands,
                old(self).deadline,
                old(self).order,
                (HookEvent::Looked { status, now }),
            ) {
                Some(hook) => old(self).stragglers@.push(hook),
                None => old(self).stragglers@,
            },
            final(self).commands == old(self).commands,
            final(self).deadline == old(self).deadline,
    {
        let waited_for: bool = match self.order.phase {
            QueuePhase::Waiting(_) | QueuePhase::Closing => true,
            _ => false,
        };
        let hook = match self.order.running {
            Some(hook) => hook,
            None => return HookAction::Nothing,
        };
        if !waited_for {
            return HookAction::Nothing;
        }
        match self.finish_running(hook, status, now) {
            FinishStep::Wait => {
                return HookAction::Pause { process: hook.process, until: self.wait_until(hook) };
            },
            FinishStep::Overdue => {
                self.order.running = None;
                self.stragglers.push(hook);
            },
            FinishStep::Done => {
                self.order.running = None;
            },
        }
        match self.order.phase {
            QueuePhase::Waiting(job) => {
                self.order.phase = QueuePhase::Spawning(job);
                match self.command(job) {
                    Some(command) => HookAction::Spawn { job, command },
                    None => HookAction::Nothing,
                }
            },
            _ => {
                self.order.phase = QueuePhase::Closed;
                HookAction::Drained
            },
        }
    }

    fn end(&mut self) -> (r: HookAction)
        requires
            old(self).wf(),
            old(self).order.phase == QueuePhase::Receiving,
        ensures
            final(self).wf(),
            (final(self).order, r) == after_end(old(self).order),
            final(self).stragglers@ == match left_running(
                old(self).commands,
                old(self).deadline,
                old(self).order,
                HookEvent::Ended,
            ) {
                Some(hook) => old(self).stragglers@.push(hook),
                None => old(self).stragglers@,
            },
            final(self).commands == old(self).commands,
            final(self).deadline == old(self).deadline,
    {
        if let Some(hook) = self.order.running {
            match hook.job {
                HookJob::SessionEnd => {
                    self.order.phase = QueuePhase::Closing;
                    return HookAction::Look { process: hook.process };
                },
                HookJob::SessionStart => {
                    self.stragglers.push(hook);
                },
            }
        }
        self.order.running = None;
        self.order.phase = QueuePhase::Closed;
        HookAction::Drained
    }

    /// Goes on from an event: the result is what is to be done next.
    pub fn run_hook_queue(&mut self, event: HookEvent) -> (r: HookAction)
        requires
            old(self).wf(),
            event.in_time(old(self).deadline),
        ensures
            final(self).wf(),
            (final(self).order, r) == queue_step(
                old(self).commands,
                old(self).deadline,
                old(self).order,
                event,
            ),
            final(self).stragglers@ == match left_running(
                old(self).commands,
                old(self).deadline,
                old(self).order,
                event,
            ) {
                Some(hook) => old(self).stragglers@.push(hook),
                None => old(self).stragglers@,
            },
            final(self).commands == old(self).commands,
            final(self).deadline == old(self).deadline,
    {
        match event {
            HookEvent::Job { job, shutting_down, now } => match self.order.phase {
                QueuePhase::Receiving => self.receive(job, shutting_down, now),
                _ => HookAction::Nothing,
            },
            HookEvent::Looked { status, now } => self.look(status, now),
            HookEvent::Started { process, now } => match self.order.phase {
                QueuePhase::Spawning(job) => {
                    self.order.running = match process {
                        Some(process) => Some(RunningHook { job, process, started: now }),
                        None => None,
                    };
                    self.order.phase = QueuePhase::Receiving;
                    HookAction::Receive
                },
                _ => HookAction::Nothing,
            },
            HookEvent::Ended => match self.order.phase {
                QueuePhase::Receiving => self.end(),
                _ => HookAction::Nothing,
            },
        }
    }

    /// Forgets the stragglers that ended. `statuses` is what a look at each of
    /// them showed, in order.
    pub fn reap_finished(&mut self, statuses: &[ProcessStatus])
        requires
            statuses.len() == old(self).stragglers@.len(),
        ensures
            final(self).stragglers@ == still_running(old(self).stragglers@, statuses@),
            final(self).order == old(self).order,
            final(self).commands == old(self).commands,
            final(self).deadline == old(self).deadline,
    {
        let mut kept: Vec<RunningHook> = Vec::new();
        let mut i: usize = 0;
        assert(self.stragglers@.take(0) =~= Seq::<RunningHook>::empty());
        assert(statuses@.take(0) =~= Seq::<ProcessStatus>::empty());
        while i < self.stragglers.len()
            invariant
                *self == *old(self),
                statuses.len() == self.stragglers@.len(),
                i <= self.stragglers@.len(),
                kept@ == still_running(self.stragglers@.take(i as int), statuses@.take(i as int)),
            decreases self.stragglers@.len() - i,
        {
            proof {
                assert(self.stragglers@.take(i + 1).drop_last() =~= self.stragglers@.take(
                    i as int,
                ));
                assert(statuses@.take(i + 1).drop_last() =~= statuses@.take(i as int));
            }
            if statuses[i] == ProcessStatus::Running {
                kept.push(self.stragglers[i]);
            }
            i = i + 1;
        }
        assert(self.stragglers@.take(i as int) =~= self.stragglers@);
        assert(statuses@.take(i as int) =~= statuses@);
        self.stragglers = kept;
    }
}

/// The pause before the next look: the usual one, cut to the end of the wait.
pub open spec fn pause_length(now: u64, wait_until: u64) -> int {
    if wait_until <= now {
        0
    } else if wait_until - now < HOOK_POLL_INTERVAL_MS {
        wait_until - now
    } else {
        HOOK_POLL_INTERVAL_MS as int
    }
}

/// How long to pause before the next look at a command that is waited for.
pub fn poll_pause(now: u64, wait_until: u64) -> (r: u64)
    ensures
        r == pause_length(now, wait_until),
{
    let left: u64 = wait_until.saturating_sub(now);
    if left < HOOK_POLL_INTERVAL_MS {
        left
    } else {
        HOOK_POLL_INTERVAL_MS
    }
}

/// Until when stragglers are reaped once the queue is closed.
pub fn reap_until(now: u64) -> (r: u64)
    requires
        now + 200 <= u64::MAX,
    ensures
        r == now + 4 * HOOK_POLL_INTERVAL_MS,
{
    now + 4 * HOOK_POLL_INTERVAL_MS
}

/// The order after a history of events.
pub open spec fn order_after(
    commands: HookCommands,
    deadline: u64,
    events: Seq<HookEvent>,
) -> QueueOrder
    decreases events.len(),
{
    if events.len() == 0 {
        fresh_order()
    } else {
        queue_step(
            commands,
            deadline,
            order_after(commands, deadline, events.drop_last()),
            events.last(),
        ).0
    }
}

/// What is to be done after a history of events that is not empty.
pub open spec fn action_after(
    commands: HookCommands,
    deadline: u64,
    events: Seq<HookEvent>,
) -> HookAction {
    queue_step(
        commands,
        deadline,
        order_after(commands, deadline, events.drop_last()),
        events.last(),
    ).1
}

/// The jobs with a command that were taken up in a history of events, in order.
pub open spec fn taken_up(
    commands: HookCommands,
    deadline: u64,
    events: Seq<HookEvent>,
) -> Seq<HookJob>
    decreases events.len(),
{
    if events.len() == 0 {
        seq![]
    } else {
        let before = taken_up(commands, deadline, events.drop_last());
        match events.last() {
            HookEvent::Job { job, .. } => if order_after(
                commands,
                deadline,
                events.drop_last(),
            ).phase == QueuePhase::Receiving && command_of(commands, job) is Some {
                before.push(job)
            } else {
                before
            },
            _ => before,
        }
    }
}

/// The jobs whose commands were started in a history of events, in order.
pub open spec fn spawned(
    commands: HookCommands,
    deadline: u64,
    events: Seq<HookEvent>,
) -> Seq<HookJob>
    decreases events.len(),
{
    if events.len() == 0 {
        seq![]
    } else {
        let before = spawned(commands, deadline, events.drop_last());
        match action_after(commands, deadline, events) {
            HookAction::Spawn { job, .. } => before.push(job),
            _ => before,
        }
    }
}

/// The job whose command waits, if one does.
pub open spec fn waiting_job(o: QueueOrder) -> Seq<HookJob> {
    match o.phase {
        QueuePhase::Waiting(job) => seq![job],
        _ => seq![],
    }
}

/// The command started last in a history of events, and where in it.
pub open spec fn last_started(
    commands: HookCommands,
    deadline: u64,
    events: Seq<HookEvent>,
) -> Option<(RunningHook, int)>
    decreases events.len(),
{
    if events.len() == 0 {
        None
    } else {
        let before = last_started(commands, deadline, events.drop_last());
        match (events.last(), order_after(commands, deadline, events.drop_last()).phase) {
            (
                HookEvent::Started { process: Some(process), now },
                QueuePhase::Spawning(job),
            ) => Some((RunningHook { job, process, started: now }, events.len() - 1)),
            _ => before,
        }
    }
}

/// At place `k` of a history a look showed that `hook` had ended, or that its time
/// was up: its own deadline, or the one that a stopping server shares among all.
pub open spec fn released_at(
    commands: HookCommands,
    deadline: u64,
    events: Seq<HookEvent>,
    hook: RunningHook,
    k: int,
) -> bool {
    &&& 0 <= k < events.len()
    &&& match events[k] {
        HookEvent::Looked { status, now } => finish_outcome(
            hook,
            deadline,
            order_after(commands, deadline, events.take(k)).drain_until,
            status,
            now,
        ) != FinishStep::Wait,
        _ => false,
    }
}

/// Commands are started in the order of their jobs: what was started, and behind
/// it what waits, is what was taken up. A job without a command starts nothing.
pub proof fn commands_start_in_job_order(
    commands: HookCommands,
    deadline: u64,
    events: Seq<HookEvent>,
)
    ensures
        spawned(commands, deadline, events) + waiting_job(order_after(commands, deadline, events))
            == taken_up(commands, deadline, events),
    decreases events.len(),
{
    let o = order_after(commands, deadline, events);
    if events.len() > 0 {
        commands_start_in_job_order(commands, deadline, events.drop_last());
    }
    assert(spawned(commands, deadline, events) + waiting_job(o) =~= taken_up(
        commands,
        deadline,
        events,
    ));
}

/// What holds of every history: the command started last still runs for the queue
/// or was released by a look, unless the queue is closed.
proof fn lemma_running_or_released(commands: HookCommands, deadline: u64, events: Seq<HookEvent>)
    ensures
        ({
            let o = order_after(commands, deadline, events);
            match last_started(commands, deadline, events) {
                None => o.running is None,
                Some((hook, at)) => {
                    &&& 0 <= at < events.len()
                    &&& o.running is Some ==> o.running == Some(hook)
                    &&& o.running is None && o.phase != QueuePhase::Closed ==> exists|k: int|
                        at < k && #[trigger] released_at(commands, deadline, events, hook, k)
                },
            }
        }),
        order_after(commands, deadline, events).phase is Spawning ==> order_after(
            commands,
            deadline,
            events,
        ).running is None,
    decreases events.len(),
{
    if events.len() > 0 {
        let before = events.drop_last();
        let n = before.len() as int;
        lemma_running_or_released(commands, deadline, before);
        let o = order_after(commands, deadline, before);
        let next = order_after(commands, deadline, events);
        assert(events.take(n) =~= before);
        match last_started(commands, deadline, before) {
            None => {},
            Some((hook, at)) => {
                if o.running is None && o.phase != QueuePhase::Closed {
                    let k = choose|k: int|
                        at < k && #[trigger] released_at(commands, deadline, before, hook, k);
                    assert(before.take(k) =~= events.take(k));
                    assert(released_at(commands, deadline, events, hook, k));
                } else if o.running is Some && next.running is None && next.phase
                    != QueuePhase::Closed {
                    assert(released_at(commands, deadline, events, hook, n));
                }
            },
        }
    }
}

/// No command is started while the one before it runs: wherever a command is to be
/// started, none was started before, or a look since then showed that the last one
/// had ended, or that its deadline or the time left to a stopping server was up.
pub proof fn no_command_overtakes_the_one_before(
    commands: HookCommands,
    deadline: u64,
    events: Seq<HookEvent>,
)
    requires
        events.len() > 0,
        action_after(commands, deadline, events) is Spawn,
    ensures
        match last_started(commands, deadline, events) {
            None => true,
            Some((hook, at)) => exists|k: int|
                at < k && #[trigger] released_at(commands, deadline, events, hook, k),
        },
{
    lemma_running_or_released(commands, deadline, events);
}

/// In every state, a command is started only where nothing runs, or where a look
/// shows that what runs has ended or is overdue.
pub proof fn a_start_waits_for_what_runs(
    commands: HookCommands,
    deadline: u64,
    o: QueueOrder,
    event: HookEvent,
)
    requires
        queue_step(commands, deadline, o, event).1 is Spawn,
    ensures
        o.running is Some ==> match event {
            HookEvent::Looked { status, now } => finish_outcome(
                o.running->0,
                deadline,
                o.drain_until,
                status,
                now,
            ) != FinishStep::Wait,
            _ => false,
        },
{
}

/// A job without a command starts nothing, and a command that runs is still waited
/// for by the next one.
pub proof fn a_job_without_a_command_ends_no_wait(
    commands: HookCommands,
    deadline: u64,
    o: QueueOrder,
    job: HookJob,
    shutting_down: bool,
    now: u64,
)
    requires
        o.phase == QueuePhase::Receiving,
        command_of(commands, job) is None,
    ensures
        ({
            let (next, action) = queue_step(
                commands,
                deadline,
                o,
                (HookEvent::Job { job, shutting_down, now }),
            );
            next.running == o.running && next.phase == o.phase && action == HookAction::Receive
        }),
{
}

/// A command that the queue stops waiting for, and that was not seen to end, is
/// left running: it is put with the stragglers.
pub proof fn overdue_commands_are_left_running(
    commands: HookCommands,
    deadline: u64,
    o: QueueOrder,
    status: ProcessStatus,
    now: u64,
)
    requires
        o.running is Some,
        o.phase is Waiting || o.phase is Closing,
        finish_outcome(o.running->0, deadline, o.drain_until, status, now) == FinishStep::Overdue,
    ensures
        left_running(commands, deadline, o, (HookEvent::Looked { status, now })) == o.running,
{
}

/// Reaping forgets no command that still runs.
pub proof fn reaping_keeps_what_runs(
    hooks: Seq<RunningHook>,
    statuses: Seq<ProcessStatus>,
    i: int,
)
    requires
        hooks.len() == statuses.len(),
        0 <= i < hooks.len(),
        statuses[i] == ProcessStatus::Running,
    ensures
        still_running(hooks, statuses).contains(hooks[i]),
    decreases hooks.len(),
{
    let before = still_running(hooks.drop_last(), statuses.drop_last());
    if i == hooks.len() - 1 {
        assert(before.push(hooks.last())[before.len() as int] == hooks[i]);
    } else {
        reaping_keeps_what_runs(hooks.drop_last(), statuses.drop_last(), i);
        let k = choose|k: int| 0 <= k < before.len() && before[k] == hooks[i];
        assert(still_running(hooks, statuses)[k] == hooks[i]);
    }
}

/// Once set, the time by which a stopping server drains its queue stays, and all
/// remaining commands share it.
pub proof fn the_stop_time_is_shared(
    commands: HookCommands,
    deadline: u64,
    o: QueueOrder,
    event: HookEvent,
)
    requires
        o.drain_until is Some,
    ensures
        queue_step(commands, deadline, o, event).0.drain_until == o.drain_until,
{
}

/// A stopping server waits for an end command, and for no other.
pub proof fn a_stopping_server_waits_for_an_end_command_only(
    commands: HookCommands,
    deadline: u64,
    o: QueueOrder,
)
    requires
        o.phase == QueuePhase::Receiving,
    ensures
        queue_step(commands, deadline, o, HookEvent::Ended).1 is Look <==> o.running is Some
            && o.running->0.job == HookJob::SessionEnd,
{
}

/// Once its time is up, or the server's, a command keeps nothing waiting, whatever
/// it does; and one that ended keeps nothing waiting at any time.
pub proof fn nothing_waits_beyond_the_limit(
    hook: RunningHook,
    deadline: u64,
    drain_until: Option<u64>,
    status: ProcessStatus,
    now: u64,
)
    requires
        now >= hook.started + deadline || (drain_until is Some && now >= drain_until->0) || status
            != ProcessStatus::Running,
    ensures
        finish_outcome(hook, deadline, drain_until, status, now) != FinishStep::Wait,
{
}

/// A pause between two looks ends no later than the wait, and gets closer to its
/// end.
pub proof fn pauses_stay_within_the_wait(now: u64, wait_until: u64)
    requires
        now < wait_until,
    ensures
        0 < pause_length(now, wait_until) <= wait_until - now,
{
}

/// A command keeps the next one waiting no longer than the deadline, and no
/// longer than the time that is left to a stopping server.
pub proof fn waiting_is_bounded(hook: RunningHook, deadline: u64, drain_until: Option<u64>)
    ensures
        wait_limit(hook, deadline, drain_until) <= hook.started + deadline,
        drain_until is Some ==> wait_limit(hook, deadline, drain_until) <= drain_until->0,
{
}

/// What is started is the command of the job at hand: the start command for a start,
/// the end command for an end. The job is the one just received, or the one that waited.
pub proof fn each_job_starts_its_own_command(
    commands: HookCommands,
    deadline: u64,
    o: QueueOrder,
    event: HookEvent,
)
    ensures
        match queue_step(commands, deadline, o, event) {
            (next, HookAction::Spawn { job, command }) => {
                &&& next.phase == QueuePhase::Spawning(job)
                &&& next.running is None
                &&& command == match job {
                    HookJob::SessionStart => commands.on_session_start->0,
                    HookJob::SessionEnd => commands.on_session_end->0,
                }
                &&& match event {
                    HookEvent::Job { job: received, .. } => received == job && match job {
                        HookJob::SessionStart => commands.on_session_start is Some,
                        HookJob::SessionEnd => commands.on_session_end is Some,
                    },
                    _ => o.phase == QueuePhase::Waiting(job),
                }
            },
            _ => true,
        },
{
}

/// A job with a command is started at once where nothing runs, and otherwise waits for
/// what runs, which is looked at.
pub proof fn what_a_job_leads_to(
    commands: HookCommands,
    deadline: u64,
    o: QueueOrder,
    job: HookJob,
    shutting_down: bool,
    now: u64,
)
    requires
        o.phase == QueuePhase::Receiving,
        now + deadline <= u64::MAX,
        match job {
            HookJob::SessionStart => commands.on_session_start is Some,
            HookJob::SessionEnd => commands.on_session_end is Some,
        },
    ensures
        ({
            let (next, action) = queue_step(
                commands,
                deadline,
                o,
                (HookEvent::Job { job, shutting_down, now }),
            );
            &&& o.running is None ==> action is Spawn
            &&& o.running is Some ==> action == (HookAction::Look {
                process: o.running->0.process,
            }) && next.phase == QueuePhase::Waiting(job) && next.running == o.running
            &&& next.drain_until == if o.drain_until is Some || !shutting_down {
                o.drain_until
            } else {
                Some((now + deadline) as u64)
            }
        }),
{
}

/// A command is waited for exactly as long as it runs, its own deadline has not passed,
/// and neither has the time of a stopping server; the wait is to end with the earlier
/// of the two.
pub proof fn how_long_a_command_is_waited_for(
    commands: HookCommands,
    deadline: u64,
    o: QueueOrder,
    status: ProcessStatus,
    now: u64,
)
    requires
        o.running is Some,
        o.running->0.started + deadline <= u64::MAX,
        o.phase is Waiting || o.phase is Closing,
    ensures
        ({
            let hook = o.running->0;
            let own = hook.started + deadline;
            let (next, action) = queue_step(
                commands,
                deadline,
                o,
                (HookEvent::Looked { status, now }),
            );
            let waits = status == ProcessStatus::Running && now < own && (o.drain_until is None
                || now < o.drain_until->0);
            &&& waits ==> next == o && match action {
                HookAction::Pause { process, until } => {
                    &&& process == hook.process
                    &&& until <= own && (o.drain_until is Some ==> until <= o.drain_until->0)
                    &&& until == own || (o.drain_until is Some && until == o.drain_until->0)
                },
                _ => false,
            }
            &&& !waits ==> next.running is None && match o.phase {
                QueuePhase::Waiting(job) => action is Spawn && next.phase == QueuePhase::Spawning(
                    job,
                ),
                _ => action == HookAction::Drained && next.phase == QueuePhase::Closed,
            }
        }),
{
}

/// A command that was started runs from then on, as the job that it was started for;
/// one that could not be started does not. Then the next job is received.
pub proof fn what_a_start_leads_to(
    commands: HookCommands,
    deadline: u64,
    o: QueueOrder,
    job: HookJob,
    process: Option<u64>,
    now: u64,
)
    requires
        o.phase == QueuePhase::Spawning(job),
    ensures
        ({
            let (next, action) = queue_step(
                commands,
                deadline,
                o,
                (HookEvent::Started { process, now }),
            );
            &&& action == HookAction::Receive
            &&& next.phase == QueuePhase::Receiving
            &&& next.drain_until == o.drain_until
            &&& process is None ==> next.running is None
            &&& process is Some ==> next.running is Some && next.running->0.process == process->0
                && next.running->0.started == now && next.running->0.job == job
        }),
{
}

/// A pause between two looks is never longer than 50 ms.
pub proof fn looks_are_frequent(now: u64, wait_until: u64)
    ensures
        0 <= pause_length(now, wait_until) <= 50,
        wait_until >= now + 50 ==> pause_length(now, wait_until) == 50,
        now < wait_until < now + 50 ==> pause_length(now, wait_until) == wait_until - now,
{
}

/// What is left running: a command whose time was up while it ran, and a start command
/// that still runs when the server stops. One that ended, or is still waited for, is not.
pub proof fn what_is_left_running(
    commands: HookCommands,
    deadline: u64,
    o: QueueOrder,
    status: ProcessStatus,
    now: u64,
)
    requires
        o.running is Some,
        o.running->0.started + deadline <= u64::MAX,
    ensures
        o.phase is Waiting || o.phase is Closing ==> left_running(
            commands,
            deadline,
            o,
            (HookEvent::Looked { status, now }),
        ) == if status == ProcessStatus::Running && (now >= o.running->0.started + deadline || (
        o.drain_until is Some && now >= o.drain_until->0)) {
            o.running
        } else {
            None
        },
        o.phase == QueuePhase::Receiving ==> left_running(commands, deadline, o, HookEvent::Ended)
            == if o.running->0.job == HookJob::SessionStart {
            o.running
        } else {
            None
        },
{
}

/// Reaping goes through the commands in order, and forgets those that ended.
pub proof fn what_is_reaped(
    hooks: Seq<RunningHook>,
    statuses: Seq<ProcessStatus>,
    hook: RunningHook,
    status: ProcessStatus,
)
    requires
        hooks.len() == statuses.len(),
    ensures
        still_running(Seq::<RunningHook>::empty(), Seq::<ProcessStatus>::empty()) == Seq::<
            RunningHook,
        >::empty(),
        still_running(hooks.push(hook), statuses.push(status)) == match status {
            ProcessStatus::Running => still_running(hooks, statuses).push(hook),
            ProcessStatus::Exited | ProcessStatus::Lost => still_running(hooks, statuses),
        },
{
    assert(hooks.push(hook).drop_last() =~= hooks);
    assert(statuses.push(status).drop_last() =~= statuses);
}

/// A queue that nothing has happened to is ready for a job, with nothing to wait for.
pub proof fn a_fresh_queue_waits_for_nothing()
    ensures
        fresh_order().running is None,
        fresh_order().drain_until is None,
        fresh_order().phase == QueuePhase::Receiving,
{
}

/// Under the server's own deadline a command keeps the next one waiting for ten seconds
/// at most, and for exactly that long while the server goes on.
pub proof fn a_command_is_waited_for_ten_seconds(hook: RunningHook, drain_until: Option<u64>)
    ensures
        wait_limit(hook, SESSION_HOOK_DEADLINE_MS, None) == hook.started + 10_000,
        wait_limit(hook, SESSION_HOOK_DEADLINE_MS, drain_until) <= hook.started + 10_000,
{
}

} // verus!
