//! Resolution of the target to a live process.
//!
//! Looking at the process table and waiting are the driver's work. What to
//! do next is decided here: the driver performs what the current
//! [`Discovery`] asks for, reports the result as a [`DiscoveryEvent`], and
//! goes on until the discovery is over.

use vstd::prelude::*;
use vstd::string::*;
use crate::errors::{Error, ErrorModel};
use crate::process::{Analyzer, TargetArgs, TargetSpec};
use crate::text::{decimal, decimal_text, occurs_in, text_contains};

verus! {

/// Seconds between two looks at the process table.
pub const RETRY_INTERVAL_SECS: u64 = 1;

/// One live process, as the process table shows it.
#[derive(Debug, Clone)]
pub struct ProcessEntry {
    pub pid: i32,
    /// The path of the executable, or `None` where it cannot be read.
    pub exe: Option<String>,
}

/// The mathematical value of a [`ProcessEntry`].
pub struct ProcessModel {
    pub pid: i32,
    pub exe: Option<Seq<char>>,
}

impl View for ProcessEntry {
    type V = ProcessModel;

    open spec fn view(&self) -> ProcessModel {
        ProcessModel {
            pid: self.pid,
            exe: match self.exe {
                Some(path) => Some(path@),
                None => None,
            },
        }
    }
}

/// The values of a listing of processes.
pub open spec fn process_models(processes: Seq<ProcessEntry>) -> Seq<ProcessModel> {
    processes.map_values(|p: ProcessEntry| p@)
}

/// Where a discovery stands, which is also what the driver has to do next.
#[derive(Debug)]
pub enum Discovery {
    /// Check whether the process with this identifier is alive.
    Probe(i32),
    /// List the live processes with their executable paths; the text is
    /// what the path of the target must contain.
    Scan(String),
    /// Wait that many seconds before the next listing.
    Sleep(String, u64),
    /// The target is the process with this identifier.
    Found(i32),
    /// The discovery is over without a target.
    Failed(Error),
}

/// The mathematical value of a [`Discovery`].
pub enum DiscoveryModel {
    Probe(i32),
    Scan(Seq<char>),
    Sleep(Seq<char>, u64),
    Found(i32),
    Failed(ErrorModel),
}

impl View for Discovery {
    type V = DiscoveryModel;

    open spec fn view(&self) -> DiscoveryModel {
        match self {
            Discovery::Probe(pid) => DiscoveryModel::Probe(*pid),
            Discovery::Scan(needle) => DiscoveryModel::Scan(needle@),
            Discovery::Sleep(needle, seconds) => DiscoveryModel::Sleep(needle@, *seconds),
            Discovery::Found(pid) => DiscoveryModel::Found(*pid),
            Discovery::Failed(error) => DiscoveryModel::Failed(error@),
        }
    }
}

/// What the driver reports back.
#[derive(Debug)]
pub enum DiscoveryEvent {
    /// The probed process is alive, or is not.
    Probed(bool),
    /// The live processes, in the order of the process table.
    Scanned(Vec<ProcessEntry>),
    /// The process table could not be listed; the text says why.
    ScanFailed(String),
    /// The wait is over.
    Waited,
    /// The shutdown signal was observed.
    Shutdown,
}

/// The mathematical value of a [`DiscoveryEvent`].
pub enum DiscoveryEventModel {
    Probed(bool),
    Scanned(Seq<ProcessModel>),
    ScanFailed(Seq<char>),
    Waited,
    Shutdown,
}

impl View for DiscoveryEvent {
    type V = DiscoveryEventModel;

    open spec fn view(&self) -> DiscoveryEventModel {
        match self {
            DiscoveryEvent::Probed(alive) => DiscoveryEventModel::Probed(*alive),
            DiscoveryEvent::Scanned(processes) => DiscoveryEventModel::Scanned(
                process_models(processes@),
            ),
            DiscoveryEvent::ScanFailed(reason) => DiscoveryEventModel::ScanFailed(reason@),
            DiscoveryEvent::Waited => DiscoveryEventModel::Waited,
            DiscoveryEvent::Shutdown => DiscoveryEventModel::Shutdown,
        }
    }
}

/// Whether a process is the target: its executable path can be read and
/// contains `needle`.
pub open spec fn runs_executable(process: ProcessModel, needle: Seq<char>) -> bool {
    process.exe matches Some(path) && occurs_in(needle, path)
}

/// The identifier of the first process of a listing that is the target.
pub open spec fn first_match(processes: Seq<ProcessModel>, needle: Seq<char>) -> Option<i32>
    decreases processes.len(),
{
    if processes.len() == 0 {
        None
    } else if runs_executable(processes[0], needle) {
        Some(processes[0].pid)
    } else {
        first_match(processes.drop_first(), needle)
    }
}

/// How a discovery starts: an explicit identifier is probed, and is
/// preferred to a path; a path is looked for in the process table; a target
/// that names neither is refused before anything is looked at.
pub open spec fn initial_discovery(target: TargetSpec) -> DiscoveryModel {
    match target.pid {
        Some(pid) => DiscoveryModel::Probe(pid),
        None => match target.exe_path {
            Some(needle) => DiscoveryModel::Scan(needle),
            None => DiscoveryModel::Failed(ErrorModel::InvalidTarget("No valid target specified"@)),
        },
    }
}

/// Whether a discovery is over.
pub open spec fn is_settled(state: DiscoveryModel) -> bool {
    state is Found || state is Failed
}

/// The detail of the failure to find the process `pid`.
pub open spec fn missing_pid_text(pid: i32) -> Seq<char> {
    "PID "@ + decimal(pid as int) + " not found"@
}

/// How a discovery goes on.
///
/// A settled discovery stays as it is. Shutdown ends any other with
/// `Interrupted`. A probe settles at once, either way. A listing settles on
/// its first match and otherwise asks for a wait of the fixed interval,
/// after which the table is listed again. A report that does not answer
/// what the state asked for changes nothing.
pub open spec fn next_discovery(state: DiscoveryModel, event: DiscoveryEventModel) -> DiscoveryModel {
    match (state, event) {
        (DiscoveryModel::Found(_), _) => state,
        (DiscoveryModel::Failed(_), _) => state,
        (_, DiscoveryEventModel::Shutdown) => DiscoveryModel::Failed(ErrorModel::Interrupted),
        (DiscoveryModel::Probe(pid), DiscoveryEventModel::Probed(alive)) => if alive {
            DiscoveryModel::Found(pid)
        } else {
            DiscoveryModel::Failed(ErrorModel::ProcessNotFound(missing_pid_text(pid)))
        },
        (DiscoveryModel::Scan(needle), DiscoveryEventModel::Scanned(processes)) => match first_match(
            processes,
            needle,
        ) {
            Some(pid) => DiscoveryModel::Found(pid),
            None => DiscoveryModel::Sleep(needle, RETRY_INTERVAL_SECS),
        },
        (DiscoveryModel::Scan(_), DiscoveryEventModel::ScanFailed(reason)) => DiscoveryModel::Failed(
            ErrorModel::ProcessNotFound(reason),
        ),
        (DiscoveryModel::Sleep(needle, _), DiscoveryEventModel::Waited) => DiscoveryModel::Scan(
            needle,
        ),
        _ => state,
    }
}

/// The discovery after `listings.len()` rounds in which the process table
/// showed `listings[0]`, `listings[1]` and so on, with a wait after each
/// listing that settled nothing.
pub open spec fn after_listings(state: DiscoveryModel, listings: Seq<Seq<ProcessModel>>) -> DiscoveryModel
    decreases listings.len(),
{
    if listings.len() == 0 {
        state
    } else {
        let looked = next_discovery(
            after_listings(state, listings.drop_last()),
            DiscoveryEventModel::Scanned(listings.last()),
        );
        next_discovery(looked, DiscoveryEventModel::Waited)
    }
}

/// A target that names neither a process nor an executable is refused with
/// `InvalidTarget` at the start: the discovery is settled before it has
/// asked for a probe or a listing, and no report changes that.
pub proof fn lemma_unnamed_target_is_refused(target: TargetSpec, event: DiscoveryEventModel)
    requires
        target.exe_path is None,
        target.pid is None,
    ensures
        initial_discovery(target) == DiscoveryModel::Failed(
            ErrorModel::InvalidTarget("No valid target specified"@),
        ),
        is_settled(initial_discovery(target)),
        next_discovery(initial_discovery(target), event) == initial_discovery(target),
{
}

/// An explicit identifier is probed once. If the process is not alive the
/// discovery fails with `ProcessNotFound` and is settled: there is no retry,
/// whatever is reported afterwards.
pub proof fn lemma_missing_process_is_not_retried(
    target: TargetSpec,
    pid: i32,
    event: DiscoveryEventModel,
)
    requires
        target.pid == Some(pid),
    ensures
        initial_discovery(target) == DiscoveryModel::Probe(pid),
        next_discovery(DiscoveryModel::Probe(pid), DiscoveryEventModel::Probed(false))
            == DiscoveryModel::Failed(ErrorModel::ProcessNotFound(missing_pid_text(pid))),
        next_discovery(
            next_discovery(DiscoveryModel::Probe(pid), DiscoveryEventModel::Probed(false)),
            event,
        ) == next_discovery(DiscoveryModel::Probe(pid), DiscoveryEventModel::Probed(false)),
{
}

/// A listing gives a process only if that process is the target, and the
/// first such one; it gives none only if no listed process is the target.
pub proof fn lemma_first_match_is_no_false_match(processes: Seq<ProcessModel>, needle: Seq<char>)
    ensures
        match first_match(processes, needle) {
            Some(pid) => exists|i: int|
                0 <= i < processes.len() && runs_executable(#[trigger] processes[i], needle)
                    && processes[i].pid == pid && forall|j: int|
                    0 <= j < i ==> !runs_executable(#[trigger] processes[j], needle),
            None => forall|i: int|
                0 <= i < processes.len() ==> !runs_executable(#[trigger] processes[i], needle),
        },
    decreases processes.len(),
{
    if processes.len() > 0 && !runs_executable(processes[0], needle) {
        let rest = processes.drop_first();
        lemma_first_match_is_no_false_match(rest, needle);
        match first_match(rest, needle) {
            Some(pid) => {
                let i = choose|i: int|
                    0 <= i < rest.len() && runs_executable(#[trigger] rest[i], needle) && rest[i].pid
                        == pid && forall|j: int|
                        0 <= j < i ==> !runs_executable(#[trigger] rest[j], needle);
                assert(processes[i + 1] == rest[i]);
                assert forall|j: int| 0 <= j < i + 1 implies !runs_executable(
                    #[trigger] processes[j],
                    needle,
                ) by {
                    if j > 0 {
                        assert(processes[j] == rest[j - 1]);
                    }
                }
            },
            None => {
                assert forall|i: int| 0 <= i < processes.len() implies !runs_executable(
                    #[trigger] processes[i],
                    needle,
                ) by {
                    if i > 0 {
                        assert(processes[i] == rest[i - 1]);
                    }
                }
            },
        }
    }
}

/// While no listing shows the target, the discovery neither finds a process
/// nor gives up: after every listing it asks for a wait of the fixed
/// interval, and after the wait for the next listing, however many rounds
/// have passed.
pub proof fn lemma_search_goes_on_until_a_match(needle: Seq<char>, listings: Seq<Seq<ProcessModel>>)
    requires
        forall|k: int| 0 <= k < listings.len() ==> first_match(#[trigger] listings[k], needle) is None,
    ensures
        after_listings(DiscoveryModel::Scan(needle), listings) == DiscoveryModel::Scan(needle),
        forall|k: int|
            0 <= k < listings.len() ==> next_discovery(
                DiscoveryModel::Scan(needle),
                DiscoveryEventModel::Scanned(#[trigger] listings[k]),
            ) == DiscoveryModel::Sleep(needle, RETRY_INTERVAL_SECS),
    decreases listings.len(),
{
    if listings.len() > 0 {
        let earlier = listings.drop_last();
        assert forall|k: int| 0 <= k < earlier.len() implies first_match(
            #[trigger] earlier[k],
            needle,
        ) is None by {
            assert(earlier[k] == listings[k]);
        }
        lemma_search_goes_on_until_a_match(needle, earlier);
        assert(first_match(listings.last(), needle) is None);
    }
}

/// Shutdown ends a search that is still under way with `Interrupted`, never
/// with a process.
pub proof fn lemma_shutdown_interrupts_the_search(state: DiscoveryModel)
    requires
        !is_settled(state),
    ensures
        next_discovery(state, DiscoveryEventModel::Shutdown) == DiscoveryModel::Failed(
            ErrorModel::Interrupted,
        ),
{
}

impl Analyzer {
    /// The first process of `processes` whose executable path can be read
    /// and contains `needle`.
    pub fn find_process(processes: &Vec<ProcessEntry>, needle: &str) -> (found: Option<i32>)
        ensures
            found == first_match(process_models(processes@), needle@),
    {
        let ghost all = process_models(processes@);
        let mut index: usize = 0;
        assert(all.skip(0) =~= all);
        while index < processes.len()
            invariant
                index <= processes.len(),
                all == process_models(processes@),
                first_match(all, needle@) == first_match(all.skip(index as int), needle@),
            decreases processes.len() - index,
        {
            proof {
                let rest = all.skip(index as int);
                assert(rest[0] == processes@[index as int]@);
                assert(rest.drop_first() =~= all.skip(index + 1));
            }
            let process = &processes[index];
            match &process.exe {
                Some(path) => {
                    if text_contains(path.as_str(), needle) {
                        return Some(process.pid);
                    }
                },
                None => {},
            }
            index = index + 1;
        }
        assert(all.skip(index as int).len() == 0);
        None
    }

    /// Starts the discovery of `target`.
    pub fn begin_discovery(&self, target: &TargetArgs) -> (state: Discovery)
        ensures
            state@ == initial_discovery(target@),
    {
        match target.pid {
            Some(pid) => Discovery::Probe(pid),
            None => match &target.exe_path {
                Some(needle) => Discovery::Scan(needle.clone()),
                None => Discovery::Failed(
                    Error::InvalidTarget(String::from_str("No valid target specified")),
                ),
            },
        }
    }

    /// Takes the discovery one step further: given where it stands and what
    /// the driver reports, says where it stands now.
    pub fn discover_process(&self, state: Discovery, event: DiscoveryEvent) -> (next: Discovery)
        ensures
            next@ == next_discovery(state@, event@),
    {
        match (state, event) {
            (Discovery::Found(pid), _) => Discovery::Found(pid),
            (Discovery::Failed(error), _) => Discovery::Failed(error),
            (_, DiscoveryEvent::Shutdown) => Discovery::Failed(Error::Interrupted),
            (Discovery::Probe(pid), DiscoveryEvent::Probed(alive)) => {
                if alive {
                    Discovery::Found(pid)
                } else {
                    let number = decimal_text(pid);
                    let detail = String::from_str("PID ").concat(number.as_str()).concat(
                        " not found",
                    );
                    Discovery::Failed(Error::ProcessNotFound(detail))
                }
            },
            (Discovery::Scan(needle), DiscoveryEvent::Scanned(processes)) => {
                match Self::find_process(&processes, needle.as_str()) {
                    Some(pid) => Discovery::Found(pid),
                    None => Discovery::Sleep(needle, RETRY_INTERVAL_SECS),
                }
            },
            (Discovery::Scan(_), DiscoveryEvent::ScanFailed(reason)) => Discovery::Failed(
                Error::ProcessNotFound(reason),
            ),
            (Discovery::Sleep(needle, _), DiscoveryEvent::Waited) => Discovery::Scan(needle),
            (state, _) => state,
        }
    }
}

} // verus!
