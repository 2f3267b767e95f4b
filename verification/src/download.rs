//! The download orchestrator's decisions: the error taxonomy, the events
//! fetch workers emit, the resolution of a listing body against a remote
//! path, and the receive loop that drives the progress callback.

use vstd::prelude::*;
use vstd::string::*;
use crate::progress::Process;
use crate::tree::{
    RepositoryEntry, EntryView, entry_views, matched_entries, parsed_tree, parse_tree_listing,
    filter_tree,
};

verus! {

/// Why a download job failed.
#[derive(Debug)]
pub enum DownloadError {
    /// The tree listing was fetched but did not parse as a valid tree:
    /// the repository or branch does not exist, or is unreadable.
    RepositoryUnavailable,
    /// The remote path matched no file in the tree.
    TargetNotFound,
    /// A network-level failure fetching the tree or one file's content.
    TransportFailure(String),
    /// A destination directory or file could not be created or written.
    FilesystemFailure(String),
    /// The event channel closed before the job finished; in a correct run
    /// this never happens.
    ChannelFailure,
}

/// The mathematical view of a job failure.
pub enum ErrorView {
    RepositoryUnavailable,
    TargetNotFound,
    TransportFailure(Seq<char>),
    FilesystemFailure(Seq<char>),
    ChannelFailure,
}

impl View for DownloadError {
    type V = ErrorView;

    open spec fn view(&self) -> ErrorView {
        match self {
            DownloadError::RepositoryUnavailable => ErrorView::RepositoryUnavailable,
            DownloadError::TargetNotFound => ErrorView::TargetNotFound,
            DownloadError::TransportFailure(m) => ErrorView::TransportFailure(m@),
            DownloadError::FilesystemFailure(m) => ErrorView::FilesystemFailure(m@),
            DownloadError::ChannelFailure => ErrorView::ChannelFailure,
        }
    }
}

impl Clone for DownloadError {
    /// A clone reports the same failure.
    fn clone(&self) -> (r: Self)
        ensures
            r@ == self@,
    {
        match self {
            DownloadError::RepositoryUnavailable => DownloadError::RepositoryUnavailable,
            DownloadError::TargetNotFound => DownloadError::TargetNotFound,
            DownloadError::TransportFailure(m) => DownloadError::TransportFailure(m.clone()),
            DownloadError::FilesystemFailure(m) => DownloadError::FilesystemFailure(m.clone()),
            DownloadError::ChannelFailure => DownloadError::ChannelFailure,
        }
    }
}

impl DownloadError {
    /// A short description of the failure, fit for a caller's eyes.
    pub fn describe(&self) -> (r: String)
        ensures
            self@ is RepositoryUnavailable ==> r@ == "Are you sure the repo really exists?"@,
            self@ is TargetNotFound ==> r@ == "Are you sure the target name is right?"@,
            self@ matches ErrorView::TransportFailure(m) ==> r@ == m,
            self@ matches ErrorView::FilesystemFailure(m) ==> r@ == m,
            self@ is ChannelFailure ==> r@ == "the event channel closed unexpectedly"@,
    {
        match self {
            DownloadError::RepositoryUnavailable => String::from_str(
                "Are you sure the repo really exists?",
            ),
            DownloadError::TargetNotFound => String::from_str(
                "Are you sure the target name is right?",
            ),
            DownloadError::TransportFailure(m) => m.clone(),
            DownloadError::FilesystemFailure(m) => m.clone(),
            DownloadError::ChannelFailure => String::from_str(
                "the event channel closed unexpectedly",
            ),
        }
    }
}

/// One notification from a fetch worker to the orchestrator: a progress
/// snapshot taken right after the worker's completion was counted, or the
/// error that stopped the worker.
#[derive(Debug)]
pub enum DownloadEvent {
    Progress(Process),
    Failed(DownloadError),
}

/// The mathematical view of one worker event.
pub enum EventView {
    Progress(Process),
    Failed(ErrorView),
}

impl View for DownloadEvent {
    type V = EventView;

    open spec fn view(&self) -> EventView {
        match self {
            DownloadEvent::Progress(p) => EventView::Progress(*p),
            DownloadEvent::Failed(e) => EventView::Failed(e@),
        }
    }
}

impl Clone for DownloadEvent {
    /// A clone carries the same notification.
    fn clone(&self) -> (r: Self)
        ensures
            r@ == self@,
    {
        match self {
            DownloadEvent::Progress(p) => DownloadEvent::Progress(*p),
            DownloadEvent::Failed(e) => DownloadEvent::Failed(e.clone()),
        }
    }
}

/// The views of a sequence of events.
pub open spec fn event_views(s: Seq<DownloadEvent>) -> Seq<EventView> {
    s.map_values(|e: DownloadEvent| e@)
}

/// The view of the loop's outcome.
pub open spec fn outcome_view(r: Result<(), DownloadError>) -> Result<(), ErrorView> {
    match r {
        Result::Ok(u) => Result::Ok(u),
        Result::Err(e) => Result::Err(e@),
    }
}

/// What resolving a listing body against a remote path yields: the matched
/// entries, or `RepositoryUnavailable` when the body is malformed, or
/// `TargetNotFound` when nothing under the remote path is a file. Zero
/// matches fail fast rather than letting a receive loop wait forever.
pub open spec fn resolve_result(body: Seq<char>, target: Seq<char>) -> Result<
    Seq<EntryView>,
    ErrorView,
> {
    match parsed_tree(body) {
        Option::None => Result::Err(ErrorView::RepositoryUnavailable),
        Option::Some(entries) => {
            let m = matched_entries(entries, target);
            if m.len() == 0 {
                Result::Err(ErrorView::TargetNotFound)
            } else {
                Result::Ok(m)
            }
        },
    }
}

/// Parse the tree-listing body and select the files under the remote path.
/// No directory is created and no content request is issued here or before
/// here, so a malformed body or an unmatched target fails the job before
/// any side effect.
pub fn resolve_targets(body: &str, target: &str) -> (r: Result<Vec<RepositoryEntry>, DownloadError>)
    ensures
        r matches Ok(v) ==> resolve_result(body@, target@) == Result::<Seq<EntryView>, ErrorView>::Ok(entry_views(v@)),
        r matches Err(e) ==> resolve_result(body@, target@) == Result::<Seq<EntryView>, ErrorView>::Err(e@),
{
    match parse_tree_listing(body) {
        Option::None => Result::Err(DownloadError::RepositoryUnavailable),
        Option::Some(entries) => {
            let m = filter_tree(&entries, target);
            if m.len() == 0 {
                Result::Err(DownloadError::TargetNotFound)
            } else {
                Result::Ok(m)
            }
        },
    }
}

/// The orchestrator's next move after one received event.
#[derive(Debug)]
pub enum LoopDecision {
    /// Deliver this snapshot to the callback and keep receiving.
    Deliver(Process),
    /// Deliver this snapshot; every matched file is accounted for, so the
    /// job is complete.
    Finish(Process),
    /// Stop receiving and fail the job with this worker's error.
    Abort(DownloadError),
}

/// The view of the orchestrator's next move.
pub enum DecisionView {
    Deliver(Process),
    Finish(Process),
    Abort(ErrorView),
}

impl View for LoopDecision {
    type V = DecisionView;

    open spec fn view(&self) -> DecisionView {
        match self {
            LoopDecision::Deliver(p) => DecisionView::Deliver(*p),
            LoopDecision::Finish(p) => DecisionView::Finish(*p),
            LoopDecision::Abort(e) => DecisionView::Abort(e@),
        }
    }
}

/// What the loop decides on one event: an error event aborts the job; a
/// snapshot is delivered, and completes the job when it reports every
/// matched file finished.
pub open spec fn step_spec(ev: EventView) -> DecisionView {
    match ev {
        EventView::Failed(e) => DecisionView::Abort(e),
        EventView::Progress(p) => if p.current == p.all {
            DecisionView::Finish(p)
        } else {
            DecisionView::Deliver(p)
        },
    }
}

/// Decide the orchestrator's next move on one received event.
pub fn loop_step(ev: &DownloadEvent) -> (r: LoopDecision)
    ensures
        r@ == step_spec(ev@),
{
    match ev {
        DownloadEvent::Failed(e) => LoopDecision::Abort(e.clone()),
        DownloadEvent::Progress(p) => {
            if p.is_over() {
                LoopDecision::Finish(*p)
            } else {
                LoopDecision::Deliver(*p)
            }
        },
    }
}

/// What the receive loop does with a sequence of events: deliver each
/// snapshot to the callback in arrival order, stop with the worker's error
/// on the first failure event, succeed once a snapshot reports completion,
/// and treat the events running out first — a closed channel — as a
/// `ChannelFailure`. The result pairs the job's outcome with the snapshots
/// delivered to the callback.
pub open spec fn run_spec(events: Seq<EventView>) -> (Result<(), ErrorView>, Seq<Process>)
    decreases events.len(),
{
    if events.len() == 0 {
        (Result::Err(ErrorView::ChannelFailure), Seq::empty())
    } else {
        match events.first() {
            EventView::Failed(e) => (Result::Err(e), Seq::empty()),
            EventView::Progress(p) => {
                if p.current == p.all {
                    (Result::Ok(()), seq![p])
                } else {
                    let rest = run_spec(events.drop_first());
                    (rest.0, seq![p] + rest.1)
                }
            },
        }
    }
}

/// Run the receive loop over the events of one job, in arrival order,
/// returning the job's outcome and the snapshots delivered to the callback.
pub fn run_events(events: &Vec<DownloadEvent>) -> (r: (Result<(), DownloadError>, Vec<Process>))
    ensures
        outcome_view(r.0) == run_spec(event_views(events@)).0,
        r.1@ == run_spec(event_views(events@)).1,
{
    let ghost evs = event_views(events@);
    let mut delivered: Vec<Process> = Vec::new();
    let mut i: usize = 0;
    proof {
        assert(evs.subrange(0, evs.len() as int) =~= evs);
        assert(delivered@ + run_spec(evs).1 =~= run_spec(evs).1);
    }
    while i < events.len()
        invariant
            i <= evs.len(),
            evs == event_views(events@),
            evs.len() == events@.len(),
            run_spec(evs).0 == run_spec(evs.subrange(i as int, evs.len() as int)).0,
            run_spec(evs).1 == delivered@ + run_spec(evs.subrange(i as int, evs.len() as int)).1,
        decreases events@.len() - i,
    {
        let ghost suf = evs.subrange(i as int, evs.len() as int);
        let ghost suf_next = evs.subrange(i as int + 1, evs.len() as int);
        proof {
            assert(suf.first() == evs[i as int]);
            assert(suf.drop_first() =~= suf_next);
        }
        let ghost before = delivered@;
        match loop_step(&events[i]) {
            LoopDecision::Abort(e) => {
                proof {
                    assert(run_spec(suf).1 =~= Seq::<Process>::empty());
                    assert(run_spec(evs).1 =~= delivered@);
                }
                return (Result::Err(e), delivered);
            },
            LoopDecision::Finish(p) => {
                delivered.push(p);
                proof {
                    assert(run_spec(suf).1 =~= seq![p]);
                    assert(run_spec(evs).1 =~= delivered@);
                }
                return (Result::Ok(()), delivered);
            },
            LoopDecision::Deliver(p) => {
                delivered.push(p);
                proof {
                    assert(before + (seq![p] + run_spec(suf_next).1) =~= delivered@ + run_spec(
                        suf_next,
                    ).1);
                }
            },
        }
        i = i + 1;
    }
    proof {
        assert(evs.subrange(i as int, evs.len() as int) =~= Seq::<EventView>::empty());
        assert(run_spec(evs).1 =~= delivered@);
    }
    (Result::Err(DownloadError::ChannelFailure), delivered)
}

/// One step of the proof that a complete run of snapshots is accepted: the
/// events from the `k`-th completion on, for a job of `n` matched files.
proof fn lemma_run_suffix_delivers(n: usize, events: Seq<EventView>, k: nat)
    requires
        k < n,
        events.len() == n - k,
        forall|i: int|
            0 <= i < events.len() ==> events[i] == EventView::Progress(
                Process { current: (k + i + 1) as usize, all: n },
            ),
    ensures
        run_spec(events).0 is Ok,
        run_spec(events).1.len() == n - k,
        forall|i: int|
            0 <= i < events.len() ==> run_spec(events).1[i] == (Process {
                current: (k + i + 1) as usize,
                all: n,
            }),
    decreases events.len(),
{
    assert(events.first() == EventView::Progress(Process { current: (k + 1) as usize, all: n }));
    if k + 1 == n {
        assert(events.len() == 1);
    } else {
        let tail = events.drop_first();
        assert forall|i: int| 0 <= i < tail.len() implies tail[i] == EventView::Progress(
            Process { current: (k + 1 + i + 1) as usize, all: n },
        ) by {
            assert(tail[i] == events[i + 1]);
        }
        lemma_run_suffix_delivers(n, tail, k + 1);
    }
}

/// Law: for a job with `n > 0` matched files whose workers all succeed, the
/// events are the `n` snapshots in completion order — `current` rising
/// 1, 2, …, n with `all == n` — and the loop reports success and delivers
/// exactly those `n` snapshots to the callback; the last delivered snapshot
/// has `current == all`.
pub proof fn lemma_successful_run_delivers_all(n: usize, events: Seq<EventView>)
    requires
        n > 0,
        events.len() == n,
        forall|i: int|
            0 <= i < events.len() ==> events[i] == EventView::Progress(
                Process { current: (i + 1) as usize, all: n },
            ),
    ensures
        run_spec(events).0 is Ok,
        run_spec(events).1.len() == n,
        forall|i: int|
            0 <= i < events.len() ==> run_spec(events).1[i] == (Process {
                current: (i + 1) as usize,
                all: n,
            }),
        run_spec(events).1.last().current == n,
{
    lemma_run_suffix_delivers(n, events, 0);
    assert(run_spec(events).1[n - 1] == (Process { current: n, all: n }));
}

/// Law: whenever the loop reports success — whatever the events were — the
/// callback was invoked at least once, and the last snapshot it was handed
/// reports every matched file finished.
pub proof fn lemma_success_ends_complete(events: Seq<EventView>)
    requires
        run_spec(events).0 is Ok,
    ensures
        run_spec(events).1.len() > 0,
        run_spec(events).1.last().current == run_spec(events).1.last().all,
    decreases events.len(),
{
    if events.len() > 0 {
        match events.first() {
            EventView::Failed(e) => {},
            EventView::Progress(p) => {
                if p.current != p.all {
                    let rest = run_spec(events.drop_first());
                    lemma_success_ends_complete(events.drop_first());
                    assert(run_spec(events).1 == seq![p] + rest.1);
                    assert(run_spec(events).1.last() == rest.1.last());
                }
            },
        }
    }
}

/// Law: if a failure event arrives before any snapshot reports completion,
/// the loop stops with that worker's error, and only the earlier snapshots —
/// none of which reports completion — were delivered to the callback.
pub proof fn lemma_failure_aborts(events: Seq<EventView>, f: int)
    requires
        0 <= f < events.len(),
        events[f] is Failed,
        forall|i: int|
            0 <= i < f ==> (#[trigger] events[i]) is Progress
                && events[i]->Progress_0.current != events[i]->Progress_0.all,
    ensures
        run_spec(events).0 == Result::<(), ErrorView>::Err(events[f]->Failed_0),
        run_spec(events).1.len() == f,
        forall|i: int| 0 <= i < f ==> run_spec(events).1[i] == events[i]->Progress_0,
    decreases f,
{
    if f == 0 {
    } else {
        let tail = events.drop_first();
        assert forall|i: int| 0 <= i < f - 1 implies (#[trigger] tail[i]) is Progress
            && tail[i]->Progress_0.current != tail[i]->Progress_0.all by {
            assert(tail[i] == events[i + 1]);
        }
        assert(tail[f - 1] == events[f]);
        lemma_failure_aborts(tail, f - 1);
        assert(events[0] is Progress);
        let p = events[0]->Progress_0;
        assert(run_spec(events).1 == seq![p] + run_spec(tail).1);
        assert forall|i: int| 0 <= i < f implies run_spec(events).1[i] == events[i]->Progress_0 by {
            if i > 0 {
                assert(run_spec(events).1[i] == run_spec(tail).1[i - 1]);
                assert(events[i] == tail[i - 1]);
            }
        }
    }
}

} // verus!
