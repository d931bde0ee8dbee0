//! The injection orchestrator: the phase-ordered protocol that captures
//! host mount identities and replays them inside the target's namespaces,
//! written as a state machine. Each step consumes the outcome of the
//! previous action and names the next one; the unverified driver performs
//! the actions (system calls and reads of the mount-information file) and
//! reports back.

use vstd::prelude::*;
use vstd::string::StrSliceExecFns;
use vstd::string::StringExecFns;

use crate::table::spec_find_by_target;
use crate::table::spec_parse_table;
use crate::table::Context;
use crate::table::FsView;
use crate::table::Table;
use crate::table::TableParseError;
use crate::table::FS;
use crate::text::dec_str;
use crate::text::u32_to_dec;
use crate::volume::Volume;
use crate::volume::VolumeV;

verus! {

/// The phases of the protocol, in their one valid order.
#[derive(Clone, Copy, Debug, PartialEq, Eq, Structural)]
pub enum Phase {
    /// Nothing has happened yet.
    Start,
    /// Waiting to hear which volume sources exist on the host.
    Validating,
    /// Waiting for the host-view mount table, read before any isolation.
    SnapshotHost,
    /// Waiting for the first detach into a private mount namespace.
    Isolating,
    /// Waiting for the self-bind mounts to be applied.
    Registering,
    /// Waiting for the re-read of the mount table, now showing the binds.
    Resnapshot,
    /// Waiting for the self-binds to be torn down.
    Deregistering,
    /// Waiting for the target's namespaces to be joined.
    Joining,
    /// Waiting for the second detach, derived from the target's state.
    Reisolating,
    /// Waiting for the captured records to be replayed at the destinations.
    Materializing,
    /// The prepared process may be handed over.
    Ready,
    /// The run was aborted; nothing more will be asked.
    Failed,
}

/// What the driver reports back to the machine.
#[derive(Debug)]
pub enum Event {
    /// Start the protocol.
    Begin,
    /// For each volume, in order, whether its source path exists.
    SourcesChecked { exists: Vec<bool> },
    /// The text of the requested mount-information file.
    TableRead { content: String },
    /// The requested operation succeeded.
    Completed,
    /// The requested operation failed with an operating-system error.
    OsFailure { message: String },
}

/// Why a run was aborted.
#[derive(Debug)]
pub enum FailureReason {
    /// Volume sources that do not exist on the host, in input order.
    MissingSources { missing: Vec<String> },
    /// The mount-information text did not parse.
    UnreadableTable { error: TableParseError },
    /// A volume's record was absent from the post-registration snapshot.
    EntryNotCaptured { source: String },
    /// The driver reported an operating-system error.
    Os { message: String },
    /// The driver fed the machine an event its phase does not take.
    Protocol,
}

/// What the machine asks the driver to do next.
#[derive(Debug)]
pub enum Action {
    /// Report, for each listed path in order, whether it exists.
    CheckSources { sources: Vec<String> },
    /// Read the current process's mount-information file and hand back
    /// its text.
    ReadMountTable,
    /// Detach into a new private mount namespace.
    UnshareMount,
    /// Bind each listed path onto itself, in order.
    BindMounts { paths: Vec<String> },
    /// Detach whatever is mounted at each listed path, in order.
    Unmounts { paths: Vec<String> },
    /// Open each listed namespace file and join it, in order.
    JoinNamespaces { paths: Vec<String> },
    /// For each context in order: create its target directory if missing,
    /// then execute the mount it describes.
    ApplyMounts { mounts: Vec<Context> },
    /// Hand control to the command to run.
    Exec,
    /// Abort the run.
    Abort { reason: FailureReason },
}

/// The sources of volumes whose existence must still be checked or whose
/// records must be manufactured.
pub open spec fn spec_sources(vs: Seq<VolumeV>) -> Seq<Seq<char>> {
    vs.map_values(|v: VolumeV| v.source)
}

/// The sources, in input order, that the existence check reported absent.
pub open spec fn spec_missing_sources(vs: Seq<VolumeV>, ex: Seq<bool>) -> Seq<Seq<char>>
    decreases vs.len(),
{
    if vs.len() == 0 {
        Seq::empty()
    } else {
        let rest = spec_missing_sources(vs.skip(1), ex.skip(1));
        if !ex[0] {
            seq![vs[0].source] + rest
        } else {
            rest
        }
    }
}

/// Validation is exhaustive: every absent source appears in the report,
/// not only the first.
pub proof fn lemma_missing_sources_complete(vs: Seq<VolumeV>, ex: Seq<bool>, i: int)
    requires
        vs.len() == ex.len(),
        0 <= i < vs.len(),
        !ex[i],
    ensures
        spec_missing_sources(vs, ex).contains(vs[i].source),
    decreases i,
{
    let rest = spec_missing_sources(vs.skip(1), ex.skip(1));
    if i == 0 {
        assert(spec_missing_sources(vs, ex)[0] == vs[0].source);
    } else {
        assert(vs.skip(1)[i - 1] == vs[i]);
        assert(ex.skip(1)[i - 1] == ex[i]);
        lemma_missing_sources_complete(vs.skip(1), ex.skip(1), i - 1);
        let k = choose|k: int| 0 <= k < rest.len() && rest[k] == vs[i].source;
        if !ex[0] {
            assert(spec_missing_sources(vs, ex)[k + 1] == rest[k]);
        } else {
            assert(spec_missing_sources(vs, ex)[k] == rest[k]);
        }
    }
}

/// Nothing is reported missing when every source exists.
pub proof fn lemma_missing_sources_sound(vs: Seq<VolumeV>, ex: Seq<bool>)
    requires
        vs.len() == ex.len(),
        forall|i: int| 0 <= i < ex.len() ==> ex[i],
    ensures
        spec_missing_sources(vs, ex).len() == 0,
    decreases vs.len(),
{
    if vs.len() > 0 {
        assert(ex[0]);
        assert(forall|i: int| 0 <= i < ex.skip(1).len() ==> #[trigger] ex.skip(1)[i] == ex[i + 1]);
        lemma_missing_sources_sound(vs.skip(1), ex.skip(1));
    }
}

/// The volumes whose source the host table does not already show as a
/// mount target: these need a self-bind to obtain a capturable identity.
pub open spec fn spec_needs_bind(t: Seq<FsView>, vs: Seq<VolumeV>) -> Seq<VolumeV>
    decreases vs.len(),
{
    if vs.len() == 0 {
        Seq::empty()
    } else {
        let rest = spec_needs_bind(t, vs.skip(1));
        if spec_find_by_target(t, vs[0].source) is None {
            seq![vs[0]] + rest
        } else {
            rest
        }
    }
}

/// Every volume's record is present in the snapshot.
pub open spec fn spec_capture_ok(t: Seq<FsView>, vs: Seq<VolumeV>) -> bool {
    forall|i: int| 0 <= i < vs.len() ==> spec_find_by_target(t, (#[trigger] vs[i]).source) is Some
}

/// The record captured for each volume: the first record of the snapshot
/// mounted at the volume's source.
pub open spec fn spec_captured(t: Seq<FsView>, vs: Seq<VolumeV>) -> Seq<FsView> {
    Seq::new(vs.len(), |i: int| spec_find_by_target(t, vs[i].source).unwrap())
}

/// The namespace kinds to join, in their fixed order.
pub open spec fn spec_ns_kinds() -> Seq<Seq<char>> {
    seq![
        seq!['m', 'n', 't'],
        seq!['u', 't', 's'],
        seq!['i', 'p', 'c'],
        seq!['p', 'i', 'd'],
        seq!['n', 'e', 't'],
    ]
}

/// The namespace file of `kind` for the process `pid`.
pub open spec fn spec_ns_path(pid: u32, kind: Seq<char>) -> Seq<char> {
    "/proc/"@ + dec_str(pid as int) + "/ns/"@ + kind
}

/// The five namespace files of `pid`, in the fixed join order.
pub open spec fn is_ns_paths(paths: Seq<Seq<char>>, pid: u32) -> bool {
    paths.len() == 5 && forall|i: int|
        0 <= i < 5 ==> paths[i] == spec_ns_path(pid, #[trigger] spec_ns_kinds()[i])
}

/// A phase in which the machine waits for the driver's report.
pub open spec fn awaiting(p: Phase) -> bool {
    ||| p == Phase::Validating
    ||| p == Phase::SnapshotHost
    ||| p == Phase::Isolating
    ||| p == Phase::Registering
    ||| p == Phase::Resnapshot
    ||| p == Phase::Deregistering
    ||| p == Phase::Joining
    ||| p == Phase::Reisolating
    ||| p == Phase::Materializing
}

/// The core state machine of the protocol.
#[derive(Debug)]
pub struct Orchestrator {
    /// The current phase.
    pub phase: Phase,
    /// The target process whose namespaces are joined.
    pub pid: u32,
    /// The volumes to inject, in input order.
    pub volumes: Vec<Volume>,
    /// The volumes registered with a self-bind, set when the host
    /// snapshot is partitioned.
    pub needs_bind: Vec<Volume>,
    /// The captured record of every volume, set from the
    /// post-registration snapshot.
    pub captured: Vec<FS>,
}

/// Neither the target pid nor the volume list changes across a step.
pub open spec fn unchanged_config(pre: Orchestrator, post: Orchestrator) -> bool {
    post.pid == pre.pid && post.volumes.deep_view() == pre.volumes.deep_view()
}

/// Nothing but the phase changes across a step.
pub open spec fn unchanged_state(pre: Orchestrator, post: Orchestrator) -> bool {
    unchanged_config(pre, post) && post.needs_bind.deep_view() == pre.needs_bind.deep_view()
        && post.captured.deep_view() == pre.captured.deep_view()
}

/// The machine refuses an event its phase does not take.
pub open spec fn protocol_failure(pre: Orchestrator, post: Orchestrator, act: Action) -> bool {
    unchanged_state(pre, post) && post.phase == Phase::Failed && act matches Action::Abort {
        reason: FailureReason::Protocol,
    }
}

/// Each mount context replays the captured record of its volume at the
/// volume's destination.
pub open spec fn contexts_match(
    mounts: Seq<Context>,
    captured: Seq<FsView>,
    vs: Seq<VolumeV>,
) -> bool {
    mounts.len() == vs.len() && forall|i: int|
        0 <= i < vs.len() ==> (#[trigger] mounts[i])@.fs == Some(captured[i]) && mounts[i]@.target
            == Some(vs[i].destination)
}

/// The transition relation of the protocol: what one step does to the
/// state and which action it hands the driver, for every phase and event.
pub open spec fn spec_transition(
    pre: Orchestrator,
    ev: Event,
    post: Orchestrator,
    act: Action,
) -> bool {
    match (pre.phase, ev) {
        (Phase::Start, Event::Begin) => {
            if pre.volumes@.len() == 0 {
                unchanged_state(pre, post) && post.phase == Phase::Joining && (act matches
                Action::JoinNamespaces { paths } && is_ns_paths(paths.deep_view(), pre.pid))
            } else {
                unchanged_state(pre, post) && post.phase == Phase::Validating && (act matches
                Action::CheckSources { sources } && sources.deep_view() == spec_sources(
                    pre.volumes.deep_view(),
                ))
            }
        },
        (Phase::Validating, Event::SourcesChecked { exists }) => {
            if exists@.len() != pre.volumes@.len() {
                protocol_failure(pre, post, act)
            } else {
                let missing = spec_missing_sources(pre.volumes.deep_view(), exists@);
                if missing.len() == 0 {
                    unchanged_state(pre, post) && post.phase == Phase::SnapshotHost && (act matches
                    Action::ReadMountTable)
                } else {
                    unchanged_state(pre, post) && post.phase == Phase::Failed && (act matches
                    Action::Abort { reason: FailureReason::MissingSources { missing: m } }
                        && m.deep_view() == missing)
                }
            }
        },
        (Phase::SnapshotHost, Event::TableRead { content }) => {
            match spec_parse_table(content@) {
                None => unchanged_state(pre, post) && post.phase == Phase::Failed && (act matches
                Action::Abort { reason: FailureReason::UnreadableTable { .. } }),
                Some(t) => unchanged_config(pre, post) && post.captured.deep_view()
                    == pre.captured.deep_view() && post.needs_bind.deep_view() == spec_needs_bind(
                    t,
                    pre.volumes.deep_view(),
                ) && post.phase == Phase::Isolating && (act matches Action::UnshareMount),
            }
        },
        (Phase::Isolating, Event::Completed) => {
            unchanged_state(pre, post) && post.phase == Phase::Registering && (act matches
            Action::BindMounts { paths } && paths.deep_view() == spec_sources(
                pre.needs_bind.deep_view(),
            ))
        },
        (Phase::Registering, Event::Completed) => {
            unchanged_state(pre, post) && post.phase == Phase::Resnapshot && (act matches
            Action::ReadMountTable)
        },
        (Phase::Resnapshot, Event::TableRead { content }) => {
            match spec_parse_table(content@) {
                None => unchanged_state(pre, post) && post.phase == Phase::Failed && (act matches
                Action::Abort { reason: FailureReason::UnreadableTable { .. } }),
                Some(t) => {
                    if spec_capture_ok(t, pre.volumes.deep_view()) {
                        unchanged_config(pre, post) && post.needs_bind.deep_view()
                            == pre.needs_bind.deep_view() && post.captured.deep_view()
                            == spec_captured(t, pre.volumes.deep_view()) && post.phase
                            == Phase::Deregistering && (act matches Action::Unmounts { paths }
                            && paths.deep_view() == spec_sources(pre.needs_bind.deep_view()))
                    } else {
                        unchanged_state(pre, post) && post.phase == Phase::Failed && (act matches
                        Action::Abort { reason: FailureReason::EntryNotCaptured { source } }
                            && exists|i: int|
                            0 <= i < pre.volumes.deep_view().len() && spec_find_by_target(
                                t,
                                (#[trigger] pre.volumes.deep_view()[i]).source,
                            ) is None && source@ == pre.volumes.deep_view()[i].source)
                    }
                },
            }
        },
        (Phase::Deregistering, Event::Completed) => {
            unchanged_state(pre, post) && post.phase == Phase::Joining && (act matches
            Action::JoinNamespaces { paths } && is_ns_paths(paths.deep_view(), pre.pid))
        },
        (Phase::Joining, Event::Completed) => {
            if pre.volumes@.len() == 0 {
                unchanged_state(pre, post) && post.phase == Phase::Ready && (act matches
                Action::Exec)
            } else {
                unchanged_state(pre, post) && post.phase == Phase::Reisolating && (act matches
                Action::UnshareMount)
            }
        },
        (Phase::Reisolating, Event::Completed) => {
            if pre.captured@.len() != pre.volumes@.len() {
                protocol_failure(pre, post, act)
            } else {
                unchanged_state(pre, post) && post.phase == Phase::Materializing && (act matches
                Action::ApplyMounts { mounts } && contexts_match(
                    mounts@,
                    pre.captured.deep_view(),
                    pre.volumes.deep_view(),
                ))
            }
        },
        (Phase::Materializing, Event::Completed) => {
            unchanged_state(pre, post) && post.phase == Phase::Ready && (act matches Action::Exec)
        },
        (_, Event::OsFailure { message }) => {
            if awaiting(pre.phase) {
                unchanged_state(pre, post) && post.phase == Phase::Failed && (act matches
                Action::Abort { reason: FailureReason::Os { message: m } } && m@ == message@)
            } else {
                protocol_failure(pre, post, act)
            }
        },
        _ => protocol_failure(pre, post, act),
    }
}

/// The sources of `volumes`, in order.
fn sources_of(volumes: &Vec<Volume>) -> (r: Vec<String>)
    ensures
        r.deep_view() == spec_sources(volumes.deep_view()),
{
    let ghost vd = volumes.deep_view();
    let mut r: Vec<String> = Vec::new();
    let mut i: usize = 0;
    while i < volumes.len()
        invariant
            i <= volumes@.len(),
            vd == volumes.deep_view(),
            vd.len() == volumes@.len(),
            r.deep_view() =~= spec_sources(vd).subrange(0, i as int),
        decreases volumes@.len() - i,
    {
        proof {
            assert(vd[i as int] == volumes@[i as int].deep_view());
        }
        let ghost pre = r.deep_view();
        r.push(volumes[i].source().clone());
        proof {
            assert(r.deep_view() =~~= pre.push(vd[i as int].source));
            assert(spec_sources(vd)[i as int] == vd[i as int].source);
            assert(r.deep_view() =~= spec_sources(vd).subrange(0, i as int + 1));
        }
        i = i + 1;
    }
    proof {
        assert(spec_sources(vd).subrange(0, vd.len() as int) =~= spec_sources(vd));
    }
    r
}

/// An owned copy of a volume list.
fn clone_volumes(volumes: &Vec<Volume>) -> (r: Vec<Volume>)
    ensures
        r.deep_view() == volumes.deep_view(),
{
    let mut r: Vec<Volume> = Vec::new();
    let mut i: usize = 0;
    while i < volumes.len()
        invariant
            i <= volumes@.len(),
            r.deep_view() =~= volumes.deep_view().subrange(0, i as int),
        decreases volumes@.len() - i,
    {
        proof {
            assert(volumes.deep_view()[i as int] == volumes@[i as int].deep_view());
        }
        let ghost pre = r.deep_view();
        r.push(volumes[i].clone());
        proof {
            assert(r.deep_view() =~~= pre.push(volumes.deep_view()[i as int]));
            assert(r.deep_view() =~= volumes.deep_view().subrange(0, i as int + 1));
        }
        i = i + 1;
    }
    proof {
        assert(volumes.deep_view().subrange(0, volumes.deep_view().len() as int)
            =~= volumes.deep_view());
    }
    r
}

/// The sources, in input order, whose existence check came back false.
fn missing_sources(volumes: &Vec<Volume>, exists: &Vec<bool>) -> (r: Vec<String>)
    requires
        exists@.len() == volumes@.len(),
    ensures
        r.deep_view() == spec_missing_sources(volumes.deep_view(), exists@),
{
    let ghost vd = volumes.deep_view();
    let ghost ex = exists@;
    let mut r: Vec<String> = Vec::new();
    let mut i: usize = 0;
    proof {
        assert(vd.skip(0) =~= vd);
        assert(ex.skip(0) =~= ex);
        assert(r.deep_view() + spec_missing_sources(vd, ex) =~= spec_missing_sources(vd, ex));
    }
    while i < volumes.len()
        invariant
            i <= volumes@.len(),
            vd == volumes.deep_view(),
            ex == exists@,
            vd.len() == volumes@.len(),
            ex.len() == vd.len(),
            spec_missing_sources(vd, ex) == r.deep_view() + spec_missing_sources(
                vd.skip(i as int),
                ex.skip(i as int),
            ),
        decreases volumes@.len() - i,
    {
        proof {
            assert(vd.skip(i as int)[0] == vd[i as int]);
            assert(ex.skip(i as int)[0] == ex[i as int]);
            assert(vd.skip(i as int).skip(1) =~= vd.skip(i as int + 1));
            assert(ex.skip(i as int).skip(1) =~= ex.skip(i as int + 1));
            assert(vd[i as int] == volumes@[i as int].deep_view());
        }
        if !exists[i] {
            let ghost pre = r.deep_view();
            r.push(volumes[i].source().clone());
            proof {
                assert(r.deep_view() =~~= pre.push(vd[i as int].source));
                assert(pre + (seq![vd[i as int].source] + spec_missing_sources(
                    vd.skip(i as int + 1),
                    ex.skip(i as int + 1),
                )) =~= pre.push(vd[i as int].source) + spec_missing_sources(
                    vd.skip(i as int + 1),
                    ex.skip(i as int + 1),
                ));
            }
        }
        i = i + 1;
    }
    proof {
        assert(vd.skip(i as int) =~= Seq::<VolumeV>::empty());
        assert(ex.skip(i as int) =~= Seq::<bool>::empty());
        assert(r.deep_view() + Seq::<Seq<char>>::empty() =~= r.deep_view());
    }
    r
}

/// The volumes whose source the table does not show as a mount target.
fn filter_needs_bind(table: &Table, volumes: &Vec<Volume>) -> (r: Vec<Volume>)
    ensures
        r.deep_view() == spec_needs_bind(table@, volumes.deep_view()),
{
    let ghost t = table@;
    let ghost vd = volumes.deep_view();
    let mut r: Vec<Volume> = Vec::new();
    let mut i: usize = 0;
    proof {
        assert(vd.skip(0) =~= vd);
        assert(r.deep_view() + spec_needs_bind(t, vd) =~= spec_needs_bind(t, vd));
    }
    while i < volumes.len()
        invariant
            i <= volumes@.len(),
            t == table@,
            vd == volumes.deep_view(),
            vd.len() == volumes@.len(),
            spec_needs_bind(t, vd) == r.deep_view() + spec_needs_bind(t, vd.skip(i as int)),
        decreases volumes@.len() - i,
    {
        proof {
            assert(vd.skip(i as int)[0] == vd[i as int]);
            assert(vd.skip(i as int).skip(1) =~= vd.skip(i as int + 1));
            assert(vd[i as int] == volumes@[i as int].deep_view());
        }
        if table.find_target(volumes[i].source().as_str()).is_none() {
            let ghost pre = r.deep_view();
            r.push(volumes[i].clone());
            proof {
                assert(r.deep_view() =~~= pre.push(vd[i as int]));
                assert(pre + (seq![vd[i as int]] + spec_needs_bind(t, vd.skip(i as int + 1)))
                    =~= pre.push(vd[i as int]) + spec_needs_bind(t, vd.skip(i as int + 1)));
            }
        }
        i = i + 1;
    }
    proof {
        assert(vd.skip(i as int) =~= Seq::<VolumeV>::empty());
        assert(r.deep_view() + Seq::<VolumeV>::empty() =~= r.deep_view());
    }
    r
}

/// The captured record of every volume, or the first source whose record
/// the snapshot does not show.
fn capture_all(table: &Table, volumes: &Vec<Volume>) -> (r: Result<Vec<FS>, usize>)
    ensures
        match r {
            Ok(c) => spec_capture_ok(table@, volumes.deep_view()) && c.deep_view()
                == spec_captured(table@, volumes.deep_view()),
            Err(i) => 0 <= i < volumes@.len() && spec_find_by_target(
                table@,
                volumes.deep_view()[i as int].source,
            ) is None,
        },
{
    let ghost t = table@;
    let ghost vd = volumes.deep_view();
    let mut c: Vec<FS> = Vec::new();
    let mut i: usize = 0;
    while i < volumes.len()
        invariant
            i <= volumes@.len(),
            t == table@,
            vd == volumes.deep_view(),
            vd.len() == volumes@.len(),
            c.deep_view().len() == i as int,
            forall|k: int|
                0 <= k < i ==> spec_find_by_target(t, (#[trigger] vd[k]).source) is Some
                    && c.deep_view()[k] == spec_find_by_target(t, vd[k].source).unwrap(),
        decreases volumes@.len() - i,
    {
        proof {
            assert(vd[i as int] == volumes@[i as int].deep_view());
        }
        match table.find_target(volumes[i].source().as_str()) {
            None => {
                return Err(i);
            },
            Some(e) => {
                let ghost pre = c.deep_view();
                c.push(e.clone());
                proof {
                    assert(c.deep_view() =~~= pre.push(e@));
                }
            },
        }
        i = i + 1;
    }
    proof {
        assert(c.deep_view() =~= spec_captured(t, vd));
    }
    Ok(c)
}

/// The namespace file of `kind` for the process `pid`.
fn ns_path(pid: u32, kind: &str) -> (r: String)
    ensures
        r@ == spec_ns_path(pid, kind@),
{
    let mut r = String::from_str("/proc/");
    let digits = u32_to_dec(pid);
    r.append(digits.as_str());
    r.append("/ns/");
    r.append(kind);
    r
}

/// The five namespace files of `pid`, in the fixed join order: mount,
/// UTS, IPC, PID, network.
fn ns_paths(pid: u32) -> (r: Vec<String>)
    ensures
        is_ns_paths(r.deep_view(), pid),
{
    let mut r: Vec<String> = Vec::new();
    r.push(ns_path(pid, "mnt"));
    r.push(ns_path(pid, "uts"));
    r.push(ns_path(pid, "ipc"));
    r.push(ns_path(pid, "pid"));
    r.push(ns_path(pid, "net"));
    proof {
        reveal_strlit("mnt");
        reveal_strlit("uts");
        reveal_strlit("ipc");
        reveal_strlit("pid");
        reveal_strlit("net");
        assert("mnt"@ =~= spec_ns_kinds()[0]);
        assert("uts"@ =~= spec_ns_kinds()[1]);
        assert("ipc"@ =~= spec_ns_kinds()[2]);
        assert("pid"@ =~= spec_ns_kinds()[3]);
        assert("net"@ =~= spec_ns_kinds()[4]);
        assert(r.deep_view().len() == 5);
    }
    r
}

/// One mount context per volume: the captured record, bound to the
/// volume's destination.
fn build_contexts(captured: &Vec<FS>, volumes: &Vec<Volume>) -> (r: Vec<Context>)
    requires
        captured@.len() == volumes@.len(),
    ensures
        contexts_match(r@, captured.deep_view(), volumes.deep_view()),
{
    let mut r: Vec<Context> = Vec::new();
    let mut i: usize = 0;
    while i < volumes.len()
        invariant
            i <= volumes@.len(),
            captured@.len() == volumes@.len(),
            r@.len() == i as int,
            forall|k: int|
                0 <= k < i ==> (#[trigger] r@[k])@.fs == Some(captured.deep_view()[k])
                    && r@[k]@.target == Some(volumes.deep_view()[k].destination),
        decreases volumes@.len() - i,
    {
        proof {
            assert(captured.deep_view()[i as int] == captured@[i as int].deep_view());
            assert(volumes.deep_view()[i as int] == volumes@[i as int].deep_view());
        }
        let mut c = Context::new();
        c.set_fs(&captured[i]);
        c.set_target(volumes[i].destination().as_str());
        r.push(c);
        i = i + 1;
    }
    r
}

impl Orchestrator {
    /// A fresh machine for `pid` and `volumes`, at the start of the
    /// protocol.
    pub fn new(pid: u32, volumes: Vec<Volume>) -> (r: Orchestrator)
        ensures
            r.phase == Phase::Start,
            r.pid == pid,
            r.volumes.deep_view() == volumes.deep_view(),
            r.needs_bind@.len() == 0,
            r.captured@.len() == 0,
    {
        Orchestrator { phase: Phase::Start, pid, volumes, needs_bind: Vec::new(), captured: Vec::new() }
    }

    /// Feed the machine the outcome of the previous action; it moves one
    /// phase and names the next action, exactly as the transition
    /// relation prescribes.
    pub fn step(&mut self, ev: Event) -> (act: Action)
        ensures
            spec_transition(*old(self), ev, *final(self), act),
    {
        match (self.phase, ev) {
            (Phase::Start, Event::Begin) => {
                if self.volumes.len() == 0 {
                    self.phase = Phase::Joining;
                    Action::JoinNamespaces { paths: ns_paths(self.pid) }
                } else {
                    self.phase = Phase::Validating;
                    Action::CheckSources { sources: sources_of(&self.volumes) }
                }
            },
            (Phase::Validating, Event::SourcesChecked { exists }) => {
                if exists.len() != self.volumes.len() {
                    self.phase = Phase::Failed;
                    Action::Abort { reason: FailureReason::Protocol }
                } else {
                    let missing = missing_sources(&self.volumes, &exists);
                    if missing.len() == 0 {
                        proof {
                            assert(missing.deep_view().len() == missing@.len());
                        }
                        self.phase = Phase::SnapshotHost;
                        Action::ReadMountTable
                    } else {
                        proof {
                            assert(missing.deep_view().len() == missing@.len());
                        }
                        self.phase = Phase::Failed;
                        Action::Abort { reason: FailureReason::MissingSources { missing } }
                    }
                }
            },
            (Phase::SnapshotHost, Event::TableRead { content }) => {
                match Table::from_text(content.as_str()) {
                    Err(error) => {
                        self.phase = Phase::Failed;
                        Action::Abort { reason: FailureReason::UnreadableTable { error } }
                    },
                    Ok(table) => {
                        self.needs_bind = filter_needs_bind(&table, &self.volumes);
                        self.phase = Phase::Isolating;
                        Action::UnshareMount
                    },
                }
            },
            (Phase::Isolating, Event::Completed) => {
                self.phase = Phase::Registering;
                Action::BindMounts { paths: sources_of(&self.needs_bind) }
            },
            (Phase::Registering, Event::Completed) => {
                self.phase = Phase::Resnapshot;
                Action::ReadMountTable
            },
            (Phase::Resnapshot, Event::TableRead { content }) => {
                match Table::from_text(content.as_str()) {
                    Err(error) => {
                        self.phase = Phase::Failed;
                        Action::Abort { reason: FailureReason::UnreadableTable { error } }
                    },
                    Ok(table) => {
                        match capture_all(&table, &self.volumes) {
                            Err(i) => {
                                let source = self.volumes[i].source().clone();
                                self.phase = Phase::Failed;
                                Action::Abort {
                                    reason: FailureReason::EntryNotCaptured { source },
                                }
                            },
                            Ok(c) => {
                                self.captured = c;
                                self.phase = Phase::Deregistering;
                                Action::Unmounts { paths: sources_of(&self.needs_bind) }
                            },
                        }
                    },
                }
            },
            (Phase::Deregistering, Event::Completed) => {
                self.phase = Phase::Joining;
                Action::JoinNamespaces { paths: ns_paths(self.pid) }
            },
            (Phase::Joining, Event::Completed) => {
                if self.volumes.len() == 0 {
                    self.phase = Phase::Ready;
                    Action::Exec
                } else {
                    self.phase = Phase::Reisolating;
                    Action::UnshareMount
                }
            },
            (Phase::Reisolating, Event::Completed) => {
                if self.captured.len() != self.volumes.len() {
                    self.phase = Phase::Failed;
                    Action::Abort { reason: FailureReason::Protocol }
                } else {
                    let mounts = build_contexts(&self.captured, &self.volumes);
                    self.phase = Phase::Materializing;
                    Action::ApplyMounts { mounts }
                }
            },
            (Phase::Materializing, Event::Completed) => {
                self.phase = Phase::Ready;
                Action::Exec
            },
            (_, Event::OsFailure { message }) => {
                if self.phase == Phase::Validating || self.phase == Phase::SnapshotHost
                    || self.phase == Phase::Isolating || self.phase == Phase::Registering
                    || self.phase == Phase::Resnapshot || self.phase == Phase::Deregistering
                    || self.phase == Phase::Joining || self.phase == Phase::Reisolating
                    || self.phase == Phase::Materializing {
                    self.phase = Phase::Failed;
                    Action::Abort { reason: FailureReason::Os { message } }
                } else {
                    self.phase = Phase::Failed;
                    Action::Abort { reason: FailureReason::Protocol }
                }
            },
            (_, _) => {
                self.phase = Phase::Failed;
                Action::Abort { reason: FailureReason::Protocol }
            },
        }
    }
}

/// The run configuration taken from the command line: the target
/// process, the volumes to inject, and the command to hand over to.
#[derive(Debug)]
pub struct NSExecutor {
    /// The process whose namespaces are joined.
    pub pid: u32,
    /// The volumes to inject, in input order.
    pub volumes: Vec<Volume>,
    /// The command and its arguments to run once everything is prepared.
    pub command_args: Vec<String>,
}

impl NSExecutor {
    /// Build a configuration; an empty command defaults to an
    /// interactive shell.
    pub fn new(pid: u32, volumes: Vec<Volume>, command_args: Vec<String>) -> (r: NSExecutor)
        ensures
            r.pid == pid,
            r.volumes == volumes,
            command_args@.len() > 0 ==> r.command_args == command_args,
            command_args@.len() == 0 ==> r.command_args.deep_view() =~= seq!["sh"@],
    {
        let mut command_args = command_args;
        if command_args.len() == 0 {
            command_args.push(String::from_str("sh"));
        }
        NSExecutor { pid, volumes, command_args }
    }

    /// The volumes to inject.
    pub fn volumes(&self) -> (r: &Vec<Volume>)
        ensures
            r == &self.volumes,
    {
        &self.volumes
    }

    /// A fresh state machine for this configuration.
    pub fn orchestrator(&self) -> (r: Orchestrator)
        ensures
            r.phase == Phase::Start,
            r.pid == self.pid,
            r.volumes.deep_view() == self.volumes.deep_view(),
    {
        Orchestrator {
            phase: Phase::Start,
            pid: self.pid,
            volumes: clone_volumes(&self.volumes),
            needs_bind: Vec::new(),
            captured: Vec::new(),
        }
    }
}

/// Actions that take a mount-table snapshot or make or undo a self-bind.
pub open spec fn snapshots_or_binds(act: Action) -> bool {
    ||| act matches Action::ReadMountTable
    ||| act matches Action::BindMounts { .. }
    ||| act matches Action::Unmounts { .. }
}

/// In a run that starts with no volumes, every state keeps no volumes and
/// stays within the joining phases.
pub proof fn lemma_no_volumes_invariant(
    states: Seq<Orchestrator>,
    events: Seq<Event>,
    acts: Seq<Action>,
    i: int,
)
    requires
        states.len() == events.len() + 1,
        acts.len() == events.len(),
        states[0].phase == Phase::Start,
        states[0].volumes@.len() == 0,
        forall|k: int|
            0 <= k < events.len() ==> spec_transition(
                #[trigger] states[k],
                events[k],
                states[k + 1],
                acts[k],
            ),
        0 <= i < states.len(),
    ensures
        states[i].volumes@.len() == 0,
        states[i].phase == Phase::Start || states[i].phase == Phase::Joining || states[i].phase
            == Phase::Ready || states[i].phase == Phase::Failed,
    decreases i,
{
    if i > 0 {
        lemma_no_volumes_invariant(states, events, acts, i - 1);
        assert(spec_transition(states[i - 1], events[i - 1], states[i], acts[i - 1]));
        assert(states[i].volumes.deep_view().len() == states[i - 1].volumes.deep_view().len());
    }
}

/// The no-volumes short circuit: in a run that starts with an empty
/// volume list, no mount-table snapshot is ever requested and no
/// self-bind or unmount ever happens; the machine only joins namespaces,
/// hands over, or aborts.
pub proof fn lemma_no_volumes_short_circuit(
    states: Seq<Orchestrator>,
    events: Seq<Event>,
    acts: Seq<Action>,
)
    requires
        states.len() == events.len() + 1,
        acts.len() == events.len(),
        states[0].phase == Phase::Start,
        states[0].volumes@.len() == 0,
        forall|k: int|
            0 <= k < events.len() ==> spec_transition(
                #[trigger] states[k],
                events[k],
                states[k + 1],
                acts[k],
            ),
    ensures
        forall|i: int| 0 <= i < acts.len() ==> !snapshots_or_binds(#[trigger] acts[i]),
        forall|i: int|
            0 <= i < acts.len() ==> (#[trigger] acts[i] matches Action::JoinNamespaces { .. }
                || acts[i] matches Action::Exec || acts[i] matches Action::Abort { .. }),
{
    assert forall|i: int| 0 <= i < acts.len() implies !snapshots_or_binds(#[trigger] acts[i]) && (
    acts[i] matches Action::JoinNamespaces { .. } || acts[i] matches Action::Exec || acts[i]
        matches Action::Abort { .. }) by {
        lemma_no_volumes_invariant(states, events, acts, i);
        assert(spec_transition(states[i], events[i], states[i + 1], acts[i]));
    }
}

/// Identity preservation across self-bind teardown: the records captured
/// from the snapshot taken while the self-binds were active are exactly
/// the looked-up records of that snapshot, and the teardown step leaves
/// every one of them — device number, filesystem type, root and all —
/// untouched.
pub proof fn lemma_capture_survives_teardown(
    t: Seq<FsView>,
    pre: Orchestrator,
    ev: Event,
    post: Orchestrator,
    act: Action,
    i: int,
)
    requires
        pre.phase == Phase::Deregistering,
        spec_capture_ok(t, pre.volumes.deep_view()),
        pre.captured.deep_view() == spec_captured(t, pre.volumes.deep_view()),
        spec_transition(pre, ev, post, act),
        ev matches Event::Completed,
        0 <= i < pre.volumes.deep_view().len(),
    ensures
        post.captured.deep_view() == pre.captured.deep_view(),
        post.captured.deep_view()[i] == spec_find_by_target(
            t,
            pre.volumes.deep_view()[i].source,
        ).unwrap(),
{
    assert(post.captured.deep_view()[i] == spec_captured(t, pre.volumes.deep_view())[i]);
}

} // verus!
