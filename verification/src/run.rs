//! A run in a named context as a sequence of steps. The caller performs each
//! action (starting a context thread, sending the job, serving the bridge
//! until the job is done) and reports what came of it; each step decides the
//! next action against the registry.

use vstd::prelude::*;
use crate::contexts::{
    admission_of, after_run, ended_text, gone_text, with_busy, Admission, AdmissionView,
    JsContexts,
};

verus! {

/// Where a run in a named context stands.
pub enum RunPhase {
    /// Nothing has been decided yet.
    Start,
    /// A context thread is being started.
    Spawning,
    /// The job is being sent to the context's thread.
    Sending,
    /// The job is running on the context's thread.
    InFlight,
    /// The run has given its answer.
    Over,
}

/// What the caller reports to a run.
pub enum RunEvent<H, V> {
    /// The run is asked for its first action.
    Start,
    /// The context thread was started (its handle), or could not be.
    Spawned(Result<H, String>),
    /// Whether the job reached the context's thread.
    Sent(bool),
    /// What the context's thread reported for the job; `None` when it ended
    /// without a result.
    Finished(Option<Result<V, String>>),
}

/// What a run asks the caller to do next.
pub enum RunAction<V> {
    /// Start a context thread and report `Spawned`.
    Spawn,
    /// Send the job to the context's handle and report `Sent`.
    Send,
    /// Serve the job's bridged calls until it is done and report `Finished`.
    Serve,
    /// The run is over with this answer.
    Return(Result<V, String>),
}

/// The mathematical form of a [`RunEvent`].
pub enum RunEventView<H, V> {
    Start,
    Spawned(Result<H, Seq<char>>),
    Sent(bool),
    Finished(Option<Result<V, Seq<char>>>),
}

/// The mathematical form of a [`RunAction`].
pub enum RunActionView<V> {
    Spawn,
    Send,
    Serve,
    Return(Result<V, Seq<char>>),
}

/// A result with its error text taken by its characters.
pub open spec fn result_view<T>(r: Result<T, String>) -> Result<T, Seq<char>> {
    match r {
        Ok(t) => Ok(t),
        Err(e) => Err(e@),
    }
}

impl<H, V> View for RunEvent<H, V> {
    type V = RunEventView<H, V>;

    open spec fn view(&self) -> RunEventView<H, V> {
        match self {
            RunEvent::Start => RunEventView::Start,
            RunEvent::Spawned(r) => RunEventView::Spawned(result_view(*r)),
            RunEvent::Sent(b) => RunEventView::Sent(*b),
            RunEvent::Finished(o) => RunEventView::Finished(
                match o {
                    Some(r) => Some(result_view(*r)),
                    None => None,
                },
            ),
        }
    }
}

impl<V> View for RunAction<V> {
    type V = RunActionView<V>;

    open spec fn view(&self) -> RunActionView<V> {
        match self {
            RunAction::Spawn => RunActionView::Spawn,
            RunAction::Send => RunActionView::Send,
            RunAction::Serve => RunActionView::Serve,
            RunAction::Return(r) => RunActionView::Return(result_view(*r)),
        }
    }
}

/// The event is the one the phase waits for.
pub open spec fn event_fits<H, V>(phase: RunPhase, event: RunEventView<H, V>) -> bool {
    match phase {
        RunPhase::Start => event is Start,
        RunPhase::Spawning => event is Spawned,
        RunPhase::Sending => event is Sent,
        RunPhase::InFlight => event is Finished,
        RunPhase::Over => false,
    }
}

/// One step of a run of `name` over the registry `m`: the next phase, the
/// registry afterwards, and the next action.
pub open spec fn run_step<H, V>(
    phase: RunPhase,
    name: Seq<char>,
    create: bool,
    m: Map<Seq<char>, (H, bool)>,
    event: RunEventView<H, V>,
) -> (RunPhase, Map<Seq<char>, (H, bool)>, RunActionView<V>) {
    match event {
        RunEventView::Start => match admission_of(m, name, create) {
            AdmissionView::Refuse(msg) => (RunPhase::Over, m, RunActionView::Return(Err(msg))),
            AdmissionView::Spawn => (RunPhase::Spawning, m, RunActionView::Spawn),
            AdmissionView::Run => (RunPhase::Sending, m, RunActionView::Send),
        },
        RunEventView::Spawned(Err(e)) => (RunPhase::Over, m, RunActionView::Return(Err(e))),
        RunEventView::Spawned(Ok(h)) => (
            RunPhase::Sending,
            m.insert(name, (h, false)),
            RunActionView::Send,
        ),
        RunEventView::Sent(false) => (
            RunPhase::Over,
            m.remove(name),
            RunActionView::Return(Err(gone_text(name))),
        ),
        RunEventView::Sent(true) => (
            RunPhase::InFlight,
            with_busy(m, name, true),
            RunActionView::Serve,
        ),
        RunEventView::Finished(outcome) => (
            RunPhase::Over,
            after_run(m, name, outcome is Some),
            RunActionView::Return(
                match outcome {
                    Some(r) => r,
                    None => Err(ended_text(name)),
                },
            ),
        ),
    }
}

/// A run of a program in the context `name`.
pub struct ContextRun {
    name: String,
    create: bool,
    phase: RunPhase,
}

impl ContextRun {
    /// The context the run is for.
    pub closed spec fn name_view(&self) -> Seq<char> {
        self.name@
    }

    /// Whether the run may create the context.
    pub closed spec fn creates(&self) -> bool {
        self.create
    }

    /// Where the run stands.
    pub closed spec fn phase_view(&self) -> RunPhase {
        self.phase
    }

    /// A run in the context `name`, which may create it when `create` is set.
    pub fn new(name: &str, create: bool) -> (r: Self)
        ensures
            r.name_view() == name@,
            r.creates() == create,
            r.phase_view() == RunPhase::Start,
    {
        ContextRun { name: String::from_str(name), create, phase: RunPhase::Start }
    }

    /// The context the run is for.
    pub fn name(&self) -> (r: &str)
        ensures
            r@ == self.name_view(),
    {
        self.name.as_str()
    }

    /// Takes the caller's report and decides the next action, as
    /// [`run_step`] says.
    pub fn step<H, V>(&mut self, contexts: &mut JsContexts<H>, event: RunEvent<H, V>) -> (r:
        RunAction<V>)
        requires
            event_fits(old(self).phase_view(), event@),
        ensures
            final(self).name_view() == old(self).name_view(),
            final(self).creates() == old(self).creates(),
            (final(self).phase_view(), final(contexts)@, r@) == run_step(
                old(self).phase_view(),
                old(self).name_view(),
                old(self).creates(),
                old(contexts)@,
                event@,
            ),
    {
        let name = self.name.as_str();
        match event {
            RunEvent::Start => match contexts.admission(name, self.create) {
                Admission::Refuse(msg) => {
                    self.phase = RunPhase::Over;
                    RunAction::Return(Err(msg))
                },
                Admission::Spawn => {
                    self.phase = RunPhase::Spawning;
                    RunAction::Spawn
                },
                Admission::Run => {
                    self.phase = RunPhase::Sending;
                    RunAction::Send
                },
            },
            RunEvent::Spawned(Err(e)) => {
                self.phase = RunPhase::Over;
                RunAction::Return(Err(e))
            },
            RunEvent::Spawned(Ok(h)) => {
                contexts.insert(name, h);
                self.phase = RunPhase::Sending;
                RunAction::Send
            },
            RunEvent::Sent(false) => {
                let msg = contexts.release_gone(name);
                self.phase = RunPhase::Over;
                RunAction::Return(Err(msg))
            },
            RunEvent::Sent(true) => {
                contexts.set_busy(name, true);
                self.phase = RunPhase::InFlight;
                RunAction::Serve
            },
            RunEvent::Finished(outcome) => {
                let ghost o = outcome;
                let r = contexts.finish_run(name, outcome);
                self.phase = RunPhase::Over;
                proof {
                    match o {
                        Some(res) => {
                            assert(result_view(r) == result_view(res));
                        },
                        None => {},
                    }
                }
                RunAction::Return(r)
            },
        }
    }
}

/// A context is busy only while its job is in flight: a step that began with
/// the context idle or absent, or that ended its job, leaves it busy only by
/// sending the job, and every step that gives the run's answer leaves the
/// context idle or released.
pub proof fn lemma_busy_only_while_in_flight<H, V>(
    phase: RunPhase,
    name: Seq<char>,
    create: bool,
    m: Map<Seq<char>, (H, bool)>,
    event: RunEventView<H, V>,
)
    requires
        event_fits(phase, event),
        phase == RunPhase::InFlight || !m.contains_key(name) || !m[name].1,
    ensures
        ({
            let (next, m2, action) = run_step(phase, name, create, m, event);
            &&& (m2.contains_key(name) && m2[name].1) ==> next == RunPhase::InFlight && action
                == RunActionView::<V>::Serve
            &&& action is Return ==> !m2.contains_key(name) || !m2[name].1
        }),
{
}

/// A job that fails on a held context leaves the context held and idle, with
/// its handle, and the run answers with the job's own error.
pub proof fn lemma_failed_job_keeps_context<H, V>(
    name: Seq<char>,
    create: bool,
    m: Map<Seq<char>, (H, bool)>,
    error: Seq<char>,
)
    requires
        m.contains_key(name),
    ensures
        ({
            let (next, m2, action) = run_step(
                RunPhase::InFlight,
                name,
                create,
                m,
                RunEventView::<H, V>::Finished(Some(Err(error))),
            );
            &&& next == RunPhase::Over
            &&& m2.contains_key(name) && !m2[name].1 && m2[name].0 == m[name].0
            &&& action == RunActionView::<V>::Return(Err(error))
        }),
{
}

/// A run reuses the context it names when that context is held and idle:
/// its first step sends the job there, whether or not the run may create,
/// and leaves the registry as it is.
pub proof fn lemma_held_idle_context_is_reused<H, V>(
    name: Seq<char>,
    create: bool,
    m: Map<Seq<char>, (H, bool)>,
)
    requires
        m.contains_key(name),
        !m[name].1,
    ensures
        run_step(RunPhase::Start, name, create, m, RunEventView::<H, V>::Start) == (
            RunPhase::Sending,
            m,
            RunActionView::<V>::Send,
        ),
{
}

/// A run starts a context thread only for a context that is not held, and
/// only when it may create one.
pub proof fn lemma_spawn_only_for_absent_context<H, V>(
    name: Seq<char>,
    create: bool,
    m: Map<Seq<char>, (H, bool)>,
)
    ensures
        run_step(RunPhase::Start, name, create, m, RunEventView::<H, V>::Start).2
            == RunActionView::<V>::Spawn ==> !m.contains_key(name) && create,
{
}

/// Outside the step that installs a freshly started context, no step of a
/// run replaces the handle of a held context: the context keeps its handle
/// or is released.
pub proof fn lemma_handle_kept_unless_spawned<H, V>(
    phase: RunPhase,
    name: Seq<char>,
    create: bool,
    m: Map<Seq<char>, (H, bool)>,
    event: RunEventView<H, V>,
    other: Seq<char>,
)
    requires
        event_fits(phase, event),
        phase != RunPhase::Spawning,
        m.contains_key(other),
    ensures
        ({
            let m2 = run_step(phase, name, create, m, event).1;
            m2.contains_key(other) ==> m2[other].0 == m[other].0
        }),
{
}

/// A run changes no context but its own.
pub proof fn lemma_other_contexts_untouched<H, V>(
    phase: RunPhase,
    name: Seq<char>,
    create: bool,
    m: Map<Seq<char>, (H, bool)>,
    event: RunEventView<H, V>,
    other: Seq<char>,
)
    requires
        event_fits(phase, event),
        other != name,
    ensures
        ({
            let m2 = run_step(phase, name, create, m, event).1;
            &&& m2.contains_key(other) == m.contains_key(other)
            &&& m.contains_key(other) ==> m2[other] == m[other]
        }),
{
}

} // verus!
