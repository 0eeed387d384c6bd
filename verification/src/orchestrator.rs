//! Restart orchestration: the ordered step sequence that takes one
//! category's listener from its old backend path to a new one, and the
//! strictly sequential composition of the two categories' restarts
//! within one discovery cycle.

use vstd::prelude::*;

use crate::Category;

verus! {

/// One externally performed action of a restart, in the order the
/// orchestrator demands: drain the clients, stop the listener, swap
/// the path, start and await the new listener.
#[derive(Debug, PartialEq, Eq, Clone)]
pub enum RestartStep {
    /// Delete the category's directory of previously dumped scripts.
    CleanDumpDir { category: Category },
    /// Broadcast the disconnect signal to every relaying client.
    BroadcastDisconnect { category: Category },
    /// Wait the fixed settle delay for clean client teardown.
    SettleDelay { category: Category },
    /// Send the listener its stop signal.
    StopListener { category: Category },
    /// Block until the listener's task has fully completed.
    AwaitListenerStopped { category: Category },
    /// Write the new path into the category's slot.
    SetActivePath { category: Category, path: String },
    /// Start a fresh listener on the category's fixed port.
    StartListener { category: Category },
    /// Block until the new listener is ready to accept connections.
    AwaitListenerReady { category: Category },
}

/// Mathematical model of a restart step.
pub enum StepData {
    CleanDumpDir { category: Category },
    BroadcastDisconnect { category: Category },
    SettleDelay { category: Category },
    StopListener { category: Category },
    AwaitListenerStopped { category: Category },
    SetActivePath { category: Category, path: Seq<char> },
    StartListener { category: Category },
    AwaitListenerReady { category: Category },
}

impl View for RestartStep {
    type V = StepData;

    open spec fn view(&self) -> StepData {
        match self {
            RestartStep::CleanDumpDir { category } => StepData::CleanDumpDir {
                category: *category,
            },
            RestartStep::BroadcastDisconnect { category } => StepData::BroadcastDisconnect {
                category: *category,
            },
            RestartStep::SettleDelay { category } => StepData::SettleDelay { category: *category },
            RestartStep::StopListener { category } => StepData::StopListener {
                category: *category,
            },
            RestartStep::AwaitListenerStopped { category } => StepData::AwaitListenerStopped {
                category: *category,
            },
            RestartStep::SetActivePath { category, path } => StepData::SetActivePath {
                category: *category,
                path: path@,
            },
            RestartStep::StartListener { category } => StepData::StartListener {
                category: *category,
            },
            RestartStep::AwaitListenerReady { category } => StepData::AwaitListenerReady {
                category: *category,
            },
        }
    }
}

impl DeepView for RestartStep {
    type V = StepData;

    open spec fn deep_view(&self) -> StepData {
        self.view()
    }
}

/// The category a step belongs to.
pub open spec fn spec_step_category(s: StepData) -> Category {
    match s {
        StepData::CleanDumpDir { category } => category,
        StepData::BroadcastDisconnect { category } => category,
        StepData::SettleDelay { category } => category,
        StepData::StopListener { category } => category,
        StepData::AwaitListenerStopped { category } => category,
        StepData::SetActivePath { category, .. } => category,
        StepData::StartListener { category } => category,
        StepData::AwaitListenerReady { category } => category,
    }
}

/// The full restart sequence for one category: optionally clean the
/// dump directory, then drain clients (signal plus settle delay), stop
/// the listener and wait for it, and only then swap the path and bring
/// a new listener up, waiting until it is ready.
pub open spec fn spec_restart_steps(
    category: Category,
    new_path: Seq<char>,
    dump_configured: bool,
) -> Seq<StepData> {
    let tail = seq![
        StepData::BroadcastDisconnect { category },
        StepData::SettleDelay { category },
        StepData::StopListener { category },
        StepData::AwaitListenerStopped { category },
        StepData::SetActivePath { category, path: new_path },
        StepData::StartListener { category },
        StepData::AwaitListenerReady { category },
    ];
    if dump_configured {
        seq![StepData::CleanDumpDir { category }] + tail
    } else {
        tail
    }
}

/// Plans the restart of one category towards `new_path`.
pub fn plan_restart(category: Category, new_path: String, dump_configured: bool) -> (r: Vec<
    RestartStep,
>)
    ensures
        r.deep_view() == spec_restart_steps(category, new_path@, dump_configured),
{
    let ghost p: Seq<char> = new_path@;
    let mut steps: Vec<RestartStep> = Vec::new();
    if dump_configured {
        steps.push(RestartStep::CleanDumpDir { category });
    }
    steps.push(RestartStep::BroadcastDisconnect { category });
    steps.push(RestartStep::SettleDelay { category });
    steps.push(RestartStep::StopListener { category });
    steps.push(RestartStep::AwaitListenerStopped { category });
    steps.push(RestartStep::SetActivePath { category, path: new_path });
    steps.push(RestartStep::StartListener { category });
    steps.push(RestartStep::AwaitListenerReady { category });
    proof {
        assert(steps.deep_view() =~= spec_restart_steps(category, p, dump_configured));
    }
    steps
}

/// All restarts demanded by one discovery cycle, strictly sequential:
/// the Dynamics restart runs to completion before the Events restart
/// begins.
pub open spec fn spec_cycle_steps(
    dynamics_path: Option<Seq<char>>,
    events_path: Option<Seq<char>>,
    dump_configured: bool,
) -> Seq<StepData> {
    let dyn_part = match dynamics_path {
        Option::Some(p) => spec_restart_steps(Category::Dynamics, p, dump_configured),
        Option::None => Seq::empty(),
    };
    let evt_part = match events_path {
        Option::Some(p) => spec_restart_steps(Category::Events, p, dump_configured),
        Option::None => Seq::empty(),
    };
    dyn_part + evt_part
}

/// Plans every restart a discovery cycle asks for; each argument is the
/// new path of a category whose target changed.
pub fn plan_cycle(
    dynamics_path: Option<String>,
    events_path: Option<String>,
    dump_configured: bool,
) -> (r: Vec<RestartStep>)
    ensures
        r.deep_view() == spec_cycle_steps(
            dynamics_path.deep_view(),
            events_path.deep_view(),
            dump_configured,
        ),
{
    let ghost d: Option<Seq<char>> = dynamics_path.deep_view();
    let ghost e: Option<Seq<char>> = events_path.deep_view();
    let mut steps: Vec<RestartStep> = Vec::new();
    match dynamics_path {
        Option::Some(p) => {
            let mut part = plan_restart(Category::Dynamics, p, dump_configured);
            steps.append(&mut part);
        },
        Option::None => {},
    }
    match events_path {
        Option::Some(p) => {
            let mut part = plan_restart(Category::Events, p, dump_configured);
            steps.append(&mut part);
        },
        Option::None => {},
    }
    proof {
        assert(steps.deep_view() =~= spec_cycle_steps(d, e, dump_configured));
    }
    steps
}

/// Within one cycle the categories never interleave: every step of the
/// Dynamics restart comes strictly before every step of the Events
/// restart, so in particular Dynamics' listener is confirmed stopped
/// before Events' drain begins.
pub proof fn lemma_restart_sequencing(
    s: Seq<StepData>,
    dynamics_path: Option<Seq<char>>,
    events_path: Option<Seq<char>>,
    dump_configured: bool,
)
    requires
        s == spec_cycle_steps(dynamics_path, events_path, dump_configured),
    ensures
        forall|i: int, j: int|
            0 <= i < s.len() && 0 <= j < s.len() && spec_step_category(#[trigger] s[i])
                == Category::Dynamics && spec_step_category(#[trigger] s[j]) == Category::Events
                ==> i < j,
{
    let dyn_len: int = match dynamics_path {
        Option::Some(p) => spec_restart_steps(Category::Dynamics, p, dump_configured).len() as int,
        Option::None => 0,
    };
    assert forall|i: int|
        0 <= i < s.len() && spec_step_category(#[trigger] s[i])
            == Category::Dynamics implies i < dyn_len by {}
    assert forall|j: int|
        0 <= j < s.len() && spec_step_category(#[trigger] s[j])
            == Category::Events implies j >= dyn_len by {}
}

} // verus!
