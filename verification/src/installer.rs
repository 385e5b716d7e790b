//! What an installation does on the device, step by step: the script of
//! operations for one installation or one listing, and the machine that works
//! through a script, closes the session on every way out, and says how it ended.

use crate::bytes::{CR, LF};
use crate::error::{TransferError, TransferFault};
use crate::identity::{
    app_dir, device_app_root, is_hex_digit, is_title_id_text, plugin_dir, plugin_path,
    sidecar_name, ApplicationIdentity,
};
use crate::reply::{base_name, entry_name, is_sendable_text, Listing};
use crate::text::lossy_text;
use crate::transfer::{lemma_bytes_of_concat, Op, OpView, Outcome, OutcomeView};
use vstd::prelude::*;
use vstd::string::*;
use vstd::utf8::*;

verus! {

/// The plugin as it was built: where the file lies, and the name under which
/// the device loads it.
pub struct Artifact {
    pub local: String,
    pub name: String,
}

/// A sidecar file that the project declares: where it should lie, and whether
/// it does.
pub struct Sidecar {
    pub local: String,
    pub present: bool,
}

/// The sidecar file that is uploaded: the declared one, if it is there.
pub open spec fn sidecar_to_upload(sidecar: Option<Sidecar>) -> Option<Seq<char>> {
    match sidecar {
        Some(s) => if s.present {
            Some(s.local@)
        } else {
            None
        },
        None => None,
    }
}

/// Whether a sidecar file is declared and is not there.
pub open spec fn sidecar_is_missing(sidecar: Option<Sidecar>) -> bool {
    match sidecar {
        Some(s) => !s.present,
        None => false,
    }
}

/// What is removed before the upload when the destination is to be cleared:
/// what lies where the plugin and the sidecar file go.
pub open spec fn removals(identity: Seq<char>, name: Seq<char>) -> Seq<OpView> {
    seq![
        OpView::Remove(plugin_path(identity, name)),
        OpView::Remove(plugin_path(identity, sidecar_name())),
    ]
}

/// What is uploaded: the plugin, and the sidecar file where there is one.
pub open spec fn uploads(
    identity: Seq<char>,
    local: Seq<char>,
    name: Seq<char>,
    sidecar: Option<Seq<char>>,
) -> Seq<OpView> {
    let plugin = seq![OpView::Upload { local, remote: plugin_path(identity, name) }];
    match sidecar {
        Some(file) => plugin.push(
            OpView::Upload { local: file, remote: plugin_path(identity, sidecar_name()) },
        ),
        None => plugin,
    }
}

/// The operations of an installation, in their order: connect; make sure that
/// the application's directory and its plugin directory are there; where the
/// destination is to be cleared, remove what lies where the files go; upload
/// the files. The session is closed after the last of them, or after the first
/// that fails.
pub open spec fn install_script(
    identity: Seq<char>,
    local: Seq<char>,
    name: Seq<char>,
    sidecar: Option<Seq<char>>,
    clear_existing: bool,
) -> Seq<OpView> {
    seq![
        OpView::Connect,
        OpView::EnsureDir(app_dir(identity)),
        OpView::EnsureDir(plugin_dir(identity)),
    ] + (if clear_existing {
        removals(identity, name)
    } else {
        Seq::empty()
    }) + uploads(identity, local, name, sidecar)
}

/// The operations of a listing: connect, and list the plugin directory.
pub open spec fn list_script(identity: Seq<char>) -> Seq<OpView> {
    seq![OpView::Connect, OpView::ListDir(plugin_dir(identity))]
}

/// Where the machine stands.
#[derive(Clone, Copy, Debug, PartialEq, Eq, Structural)]
pub enum Phase {
    /// Nothing was asked yet.
    Idle,
    /// The operation of the script at the cursor is under way.
    Running,
    /// A removal was refused; the directory is being listed to see whether
    /// there was anything to remove.
    Probing,
    /// The session is being closed.
    Closing,
    /// All is over.
    Done,
}

/// What the machine asks for.
pub enum Task {
    /// Run this operation on the session, and hand its result to `step`.
    Transfer(Op),
    /// Nothing more: the lines to show to the operator, or the failure.
    Finish(Result<Vec<String>, TransferError>),
}

pub enum TaskView {
    Transfer(OpView),
    Finish(Result<Seq<Seq<char>>, TransferFault>),
}

impl View for Task {
    type V = TaskView;

    open spec fn view(&self) -> TaskView {
        match self {
            Task::Transfer(op) => TaskView::Transfer(op@),
            Task::Finish(Ok(lines)) => TaskView::Finish(Ok(lines.deep_view())),
            Task::Finish(Err(e)) => TaskView::Finish(Err(e@)),
        }
    }
}

/// The machine as the contracts see it.
pub struct RunnerView {
    /// The operations to work through.
    pub script: Seq<OpView>,
    /// The directory that is listed when a removal was refused.
    pub probe_dir: Seq<char>,
    /// Whether a sidecar file is declared and is not there.
    pub sidecar_missing: bool,
    /// How many operations of the script are behind the machine.
    pub cursor: int,
    pub phase: Phase,
    /// The refusal of the removal that is being probed.
    pub pending: Option<TransferFault>,
    /// The failure that ends the run, once there is one.
    pub verdict: Option<TransferFault>,
    /// The lines to show to the operator when all went well.
    pub output: Seq<Seq<char>>,
}

/// The names of a listing as text.
pub open spec fn texts(names: Seq<Seq<u8>>) -> Seq<Seq<char>> {
    names.map_values(|name: Seq<u8>| lossy_text(name))
}

/// The result of a run: the failure if there is one, else the lines to show.
pub open spec fn result_of(m: RunnerView) -> Result<Seq<Seq<char>>, TransferFault> {
    match m.verdict {
        Some(e) => Err(e),
        None => Ok(m.output),
    }
}

/// The way out: the session is closed, and `verdict` is what the run will
/// report.
pub open spec fn closing(m: RunnerView, verdict: Option<TransferFault>) -> (RunnerView, TaskView) {
    (
        RunnerView { phase: Phase::Closing, verdict, pending: None, ..m },
        TaskView::Transfer(OpView::Close),
    )
}

/// The way on: the next operation of the script, or the way out when the
/// script is done. A sidecar file that is declared and not there makes the run
/// fail then, after the plugin is on the device.
pub open spec fn proceeding(m: RunnerView) -> (RunnerView, TaskView) {
    if 0 <= m.cursor < m.script.len() {
        (
            RunnerView { phase: Phase::Running, pending: None, ..m },
            TaskView::Transfer(m.script[m.cursor]),
        )
    } else {
        closing(
            m,
            if m.sidecar_missing {
                Some(TransferFault::NoSidecarFound)
            } else {
                None
            },
        )
    }
}

/// The name by which a listing of its directory would show `path`.
pub open spec fn listed_name(path: Seq<char>) -> Seq<u8> {
    entry_name(encode_utf8(path))
}

/// The first step.
pub open spec fn started(m: RunnerView) -> (RunnerView, TaskView) {
    if m.phase == Phase::Idle {
        proceeding(m)
    } else {
        stepped(m, Ok(OutcomeView::Done))
    }
}

/// The step of the machine, on the result of what it asked for last.
///
/// An operation that succeeded leads to the next; the names of a listing are
/// kept as lines to show. A failed operation ends the run with its failure,
/// but for a removal: there the directory is listed, and the run goes on if the
/// listing shows that nothing by that name was there. On every way out the
/// session is closed before the run is finished.
pub open spec fn stepped(m: RunnerView, r: Result<OutcomeView, TransferFault>) -> (
    RunnerView,
    TaskView,
) {
    match m.phase {
        Phase::Idle => proceeding(m),
        Phase::Running => match r {
            Ok(outcome) => proceeding(
                RunnerView {
                    cursor: m.cursor + 1,
                    output: match outcome {
                        OutcomeView::Listing(names) => m.output + texts(names),
                        OutcomeView::Done => m.output,
                    },
                    ..m
                },
            ),
            Err(e) => if 0 <= m.cursor < m.script.len() && m.script[m.cursor] is Remove {
                (
                    RunnerView { phase: Phase::Probing, pending: Some(e), ..m },
                    TaskView::Transfer(OpView::ListDir(m.probe_dir)),
                )
            } else {
                closing(m, Some(e))
            },
        },
        Phase::Probing => {
            let absent = match r {
                Ok(OutcomeView::Listing(names)) => 0 <= m.cursor < m.script.len() && (
                m.script[m.cursor] matches OpView::Remove(path) && !names.contains(
                    listed_name(path),
                )),
                _ => false,
            };
            if absent {
                proceeding(RunnerView { cursor: m.cursor + 1, ..m })
            } else {
                closing(m, m.pending)
            }
        },
        Phase::Closing => (RunnerView { phase: Phase::Done, ..m }, TaskView::Finish(result_of(m))),
        Phase::Done => (m, TaskView::Finish(result_of(m))),
    }
}

/// The machine that works through a script.
pub struct Runner {
    script: Vec<Op>,
    probe_dir: String,
    sidecar_missing: bool,
    cursor: usize,
    phase: Phase,
    pending: Option<TransferError>,
    verdict: Option<TransferError>,
    output: Vec<String>,
}

/// The operations as the contracts see them.
pub open spec fn ops_view(ops: Seq<Op>) -> Seq<OpView> {
    Seq::new(ops.len(), |i: int| ops[i]@)
}

/// A failure, if any, as the contracts see it.
pub open spec fn fault_view(e: Option<TransferError>) -> Option<TransferFault> {
    match e {
        Some(e) => Some(e@),
        None => None,
    }
}

impl View for Runner {
    type V = RunnerView;

    closed spec fn view(&self) -> RunnerView {
        RunnerView {
            script: ops_view(self.script@),
            probe_dir: self.probe_dir@,
            sidecar_missing: self.sidecar_missing,
            cursor: self.cursor as int,
            phase: self.phase,
            pending: fault_view(self.pending),
            verdict: fault_view(self.verdict),
            output: self.output.deep_view(),
        }
    }
}

/// A machine that has not begun.
pub open spec fn fresh(script: Seq<OpView>, probe_dir: Seq<char>, sidecar_missing: bool) -> RunnerView {
    RunnerView {
        script,
        probe_dir,
        sidecar_missing,
        cursor: 0,
        phase: Phase::Idle,
        pending: None,
        verdict: None,
        output: Seq::empty(),
    }
}

fn duplicate_fault(e: &Option<TransferError>) -> (out: Option<TransferError>)
    ensures
        fault_view(out) == fault_view(*e),
{
    match e {
        Some(e) => Some(e.duplicate()),
        None => None,
    }
}

pub(crate) fn duplicate_lines(lines: &Vec<String>) -> (out: Vec<String>)
    ensures
        out.deep_view() == lines.deep_view(),
{
    let mut out: Vec<String> = Vec::new();
    let mut i: usize = 0;
    while i < lines.len()
        invariant
            i <= lines.len(),
            out.len() == i,
            forall|j: int| 0 <= j < i ==> out[j]@ == lines[j]@,
        decreases lines.len() - i,
    {
        out.push(lines[i].clone());
        i = i + 1;
    }
    assert(out.deep_view() =~= lines.deep_view());
    out
}

/// Moves the names of a listing, as text, to the end of `lines`.
fn collect(listing: Listing, lines: &mut Vec<String>)
    ensures
        final(lines).deep_view() == old(lines).deep_view() + texts(listing@),
{
    let mut listing = listing;
    let ghost all = listing@;
    let ghost before = lines.deep_view();
    let ghost mut taken: int = 0;
    assert(lines.deep_view() =~= before + texts(all.take(0)));
    assert(all.skip(0) == all);
    loop
        invariant
            0 <= taken <= all.len(),
            listing@ == all.skip(taken),
            lines.deep_view() == before + texts(all.take(taken)),
        ensures
            lines.deep_view() == before + texts(all),
        decreases listing@.len(),
    {
        let ghost so_far = lines.deep_view();
        match listing.next_entry() {
            Some(line) => {
                lines.push(line);
                proof {
                    assert(line@ == lossy_text(all[taken]));
                    assert(all.skip(taken).drop_first() == all.skip(taken + 1));
                    assert(lines.deep_view() =~= so_far.push(line@));
                    assert(texts(all.take(taken + 1)) =~= texts(all.take(taken)).push(
                        lossy_text(all[taken]),
                    ));
                    taken = taken + 1;
                }
            },
            None => {
                assert(all.take(taken) == all);
                break ;
            },
        }
    }
}

impl Runner {
    #[verifier::type_invariant]
    spec fn well_formed(self) -> bool {
        &&& (self.phase == Phase::Running || self.phase == Phase::Probing) ==> self.cursor
            < self.script.len()
        &&& self.cursor <= self.script.len()
    }

    /// The machine for one installation of `artifact` for the application
    /// `identity`.
    pub fn install(
        identity: &ApplicationIdentity,
        artifact: &Artifact,
        sidecar: Option<&Sidecar>,
        clear_existing: bool,
    ) -> (runner: Runner)
        ensures
            runner@ == fresh(
                install_script(
                    identity@,
                    artifact.local@,
                    artifact.name@,
                    sidecar_to_upload(
                        match sidecar {
                            Some(s) => Some(*s),
                            None => None,
                        },
                    ),
                    clear_existing,
                ),
                plugin_dir(identity@),
                sidecar_is_missing(
                    match sidecar {
                        Some(s) => Some(*s),
                        None => None,
                    },
                ),
            ),
    {
        let mut script: Vec<Op> = Vec::new();
        script.push(Op::Connect);
        script.push(Op::EnsureDir(identity.app_dir()));
        script.push(Op::EnsureDir(identity.plugin_dir()));
        if clear_existing {
            script.push(Op::Remove(identity.plugin_path(artifact.name.as_str())));
            script.push(Op::Remove(identity.sidecar_path()));
        }
        script.push(
            Op::Upload {
                local: artifact.local.clone(),
                remote: identity.plugin_path(artifact.name.as_str()),
            },
        );
        let mut sidecar_missing = false;
        match sidecar {
            Some(s) => {
                if s.present {
                    script.push(
                        Op::Upload { local: s.local.clone(), remote: identity.sidecar_path() },
                    );
                } else {
                    sidecar_missing = true;
                }
            },
            None => {},
        }
        let runner = Runner {
            script,
            probe_dir: identity.plugin_dir(),
            sidecar_missing,
            cursor: 0,
            phase: Phase::Idle,
            pending: None,
            verdict: None,
            output: Vec::new(),
        };
        assert(runner@.script =~= install_script(
            identity@,
            artifact.local@,
            artifact.name@,
            sidecar_to_upload(
                match sidecar {
                    Some(s) => Some(*s),
                    None => None,
                },
            ),
            clear_existing,
        ));
        assert(runner@.output =~= Seq::<Seq<char>>::empty());
        runner
    }

    /// The machine for one listing of the plugins of the application
    /// `identity`.
    pub fn list(identity: &ApplicationIdentity) -> (runner: Runner)
        ensures
            runner@ == fresh(list_script(identity@), plugin_dir(identity@), false),
    {
        let mut script: Vec<Op> = Vec::new();
        script.push(Op::Connect);
        script.push(Op::ListDir(identity.plugin_dir()));
        let runner = Runner {
            script,
            probe_dir: identity.plugin_dir(),
            sidecar_missing: false,
            cursor: 0,
            phase: Phase::Idle,
            pending: None,
            verdict: None,
            output: Vec::new(),
        };
        assert(runner@.script =~= list_script(identity@));
        assert(runner@.output =~= Seq::<Seq<char>>::empty());
        runner
    }

    /// Where the machine stands.
    pub fn phase(&self) -> (phase: Phase)
        ensures
            phase == self@.phase,
    {
        self.phase
    }

    fn close(&mut self, verdict: Option<TransferError>) -> (out: Task)
        ensures
            (final(self)@, out@) == closing(old(self)@, fault_view(verdict)),
    {
        proof {
            use_type_invariant(&*self);
        }
        self.phase = Phase::Closing;
        self.verdict = verdict;
        self.pending = None;
        Task::Transfer(Op::Close)
    }

    fn proceed(&mut self) -> (out: Task)
        ensures
            (final(self)@, out@) == proceeding(old(self)@),
    {
        proof {
            use_type_invariant(&*self);
        }
        if self.cursor < self.script.len() {
            self.phase = Phase::Running;
            self.pending = None;
            Task::Transfer(self.script[self.cursor].duplicate())
        } else if self.sidecar_missing {
            self.close(Some(TransferError::NoSidecarFound))
        } else {
            self.close(None)
        }
    }

    fn finish(&mut self) -> (out: Task)
        ensures
            final(self)@ == (RunnerView { phase: Phase::Done, ..old(self)@ }),
            out@ == TaskView::Finish(result_of(old(self)@)),
    {
        proof {
            use_type_invariant(&*self);
        }
        self.phase = Phase::Done;
        match duplicate_fault(&self.verdict) {
            Some(e) => Task::Finish(Err(e)),
            None => Task::Finish(Ok(duplicate_lines(&self.output))),
        }
    }

    /// Begins the run: says what is to be done first.
    pub fn start(&mut self) -> (out: Task)
        ensures
            (final(self)@, out@) == started(old(self)@),
    {
        if self.phase == Phase::Idle {
            self.proceed()
        } else {
            self.step(Ok(Outcome::Done))
        }
    }

    /// Takes the result of the operation that the machine asked for last, and
    /// says what is to be done next.
    pub fn step(&mut self, result: Result<Outcome, TransferError>) -> (out: Task)
        ensures
            (final(self)@, out@) == stepped(
                old(self)@,
                match result {
                    Ok(outcome) => Ok(outcome@),
                    Err(e) => Err(e@),
                },
            ),
    {
        proof {
            use_type_invariant(&*self);
        }
        match self.phase {
            Phase::Idle => self.proceed(),
            Phase::Running => {
                match result {
                    Ok(outcome) => {
                        self.phase = Phase::Idle;
                        self.cursor = self.cursor + 1;
                        match outcome {
                            Outcome::Listing(listing) => {
                                let mut lines = duplicate_lines(&self.output);
                                collect(listing, &mut lines);
                                self.output = lines;
                            },
                            Outcome::Done => {},
                        }
                        self.proceed()
                    },
                    Err(e) => {
                        let probes = match &self.script[self.cursor] {
                            Op::Remove(_) => true,
                            _ => false,
                        };
                        if probes {
                            self.phase = Phase::Probing;
                            self.pending = Some(e);
                            Task::Transfer(Op::ListDir(self.probe_dir.clone()))
                        } else {
                            self.close(Some(e))
                        }
                    },
                }
            },
            Phase::Probing => {
                let absent = match result {
                    Ok(Outcome::Listing(listing)) => {
                        let mut listing = listing;
                        match &self.script[self.cursor] {
                            Op::Remove(path) => {
                                let name = base_name(path.as_str().as_bytes());
                                !listing.holds(name.as_slice())
                            },
                            _ => false,
                        }
                    },
                    _ => false,
                };
                if absent {
                    self.phase = Phase::Idle;
                    self.cursor = self.cursor + 1;
                    self.proceed()
                } else {
                    let verdict = duplicate_fault(&self.pending);
                    self.close(verdict)
                }
            },
            Phase::Closing => self.finish(),
            Phase::Done => self.finish(),
        }
    }
}

/// The result of a task, as the contracts see it.
pub type Handed = Result<OutcomeView, TransferFault>;

/// What the machine asks for, task by task, when the results in `results` are
/// handed to it in turn: one task for each result.
pub open spec fn answers(m: RunnerView, results: Seq<Handed>) -> Seq<TaskView>
    decreases results.len(),
{
    if results.len() == 0 {
        Seq::empty()
    } else {
        let (next, task) = stepped(m, results[0]);
        seq![task] + answers(next, results.drop_first())
    }
}

/// A whole run: the first task, and then the task for each result.
pub open spec fn run(m: RunnerView, results: Seq<Handed>) -> Seq<TaskView> {
    seq![started(m).1] + answers(started(m).0, results)
}

/// Whether `op` was asked for in `trace` before position `j`.
pub open spec fn asked_before(trace: Seq<TaskView>, op: OpView, j: int) -> bool {
    exists|i: int| 0 <= i < j && i < trace.len() && #[trigger] trace[i] == TaskView::Transfer(op)
}

/// Whether every upload in `trace` comes after the removal of the path that
/// it writes.
pub open spec fn clears_before_uploads(trace: Seq<TaskView>) -> bool {
    forall|j: int|
        0 <= j < trace.len() ==> (#[trigger] trace[j] matches TaskView::Transfer(
            OpView::Upload { remote, .. },
        ) ==> asked_before(trace, OpView::Remove(remote), j))
}

/// Whether, in a script, every upload comes after the removal of the path
/// that it writes.
pub open spec fn script_clears(script: Seq<OpView>) -> bool {
    forall|k: int|
        0 <= k < script.len() ==> (#[trigger] script[k] matches OpView::Upload { remote, .. }
            ==> exists|i: int| 0 <= i < k && #[trigger] script[i] == OpView::Remove(remote))
}

/// Whether a script removes nothing.
pub open spec fn script_keeps(script: Seq<OpView>) -> bool {
    forall|k: int| 0 <= k < script.len() ==> !(#[trigger] script[k] is Remove)
}

/// How many operations of the script the machine has asked for, as far as
/// more may follow.
spec fn asked_count(m: RunnerView) -> int {
    match m.phase {
        Phase::Idle => m.cursor,
        Phase::Running => m.cursor + 1,
        Phase::Probing => m.cursor + 1,
        _ => 0,
    }
}

spec fn on_track(m: RunnerView, trace: Seq<TaskView>) -> bool {
    &&& 0 <= m.cursor <= m.script.len()
    &&& (m.phase == Phase::Running || m.phase == Phase::Probing) ==> m.cursor < m.script.len()
    &&& forall|k: int|
        0 <= k < asked_count(m) ==> asked_before(trace, #[trigger] m.script[k], trace.len() as int)
}

proof fn lemma_step_keeps_track(
    m: RunnerView,
    trace: Seq<TaskView>,
    r: Option<Handed>,
    next: RunnerView,
    task: TaskView,
)
    requires
        script_clears(m.script),
        on_track(m, trace),
        clears_before_uploads(trace),
        r is None ==> m.phase == Phase::Idle,
        (next, task) == (match r {
            Some(r) => stepped(m, r),
            None => proceeding(m),
        }),
    ensures
        next.script == m.script,
        on_track(next, trace.push(task)),
        clears_before_uploads(trace.push(task)),
{
    let longer = trace.push(task);
    let n = trace.len() as int;
    assert(longer[n] == task);
    assert forall|op: OpView, j: int| asked_before(trace, op, j) implies asked_before(
        longer,
        op,
        j,
    ) by {
        let i = choose|i: int| 0 <= i < j && i < trace.len() && #[trigger] trace[i] == TaskView::Transfer(op);
        assert(longer[i] == TaskView::Transfer(op));
    }
    assert forall|k: int| 0 <= k < asked_count(next) implies asked_before(
        longer,
        #[trigger] next.script[k],
        longer.len() as int,
    ) by {
        if k < asked_count(m) {
            assert(asked_before(trace, m.script[k], n));
        } else {
            assert(k == next.cursor);
            assert(next.phase == Phase::Running);
            assert(task == TaskView::Transfer(m.script[k]));
        }
    }
    assert forall|j: int| 0 <= j < longer.len() implies (#[trigger] longer[j] matches TaskView::Transfer(
        OpView::Upload { remote, .. },
    ) ==> asked_before(longer, OpView::Remove(remote), j)) by {
        if j < n {
            assert(longer[j] == trace[j]);
        } else if let TaskView::Transfer(OpView::Upload { remote, .. }) = task {
            let k = next.cursor;
            assert(task == TaskView::Transfer(m.script[k]));
            let i = choose|i: int| 0 <= i < k && #[trigger] m.script[i] == OpView::Remove(remote);
            assert(asked_before(trace, m.script[i], n));
        }
    }
}

proof fn lemma_run_clears(m: RunnerView, trace: Seq<TaskView>, results: Seq<Handed>)
    requires
        script_clears(m.script),
        on_track(m, trace),
        clears_before_uploads(trace),
    ensures
        clears_before_uploads(trace + answers(m, results)),
    decreases results.len(),
{
    if results.len() == 0 {
        assert(trace + answers(m, results) =~= trace);
    } else {
        let (next, task) = stepped(m, results[0]);
        lemma_step_keeps_track(m, trace, Some(results[0]), next, task);
        lemma_run_clears(next, trace.push(task), results.drop_first());
        assert(trace + answers(m, results) =~= trace.push(task) + answers(
            next,
            results.drop_first(),
        ));
    }
}

/// An installation that clears the destination removes what lies at a path
/// before it uploads to that path: whatever the device answers, every upload
/// that the machine asks for comes after the removal of the same path.
pub proof fn law_clears_before_upload(
    identity: Seq<char>,
    local: Seq<char>,
    name: Seq<char>,
    sidecar: Option<Seq<char>>,
    sidecar_missing: bool,
    results: Seq<Handed>,
)
    ensures
        clears_before_uploads(
            run(
                fresh(
                    install_script(identity, local, name, sidecar, true),
                    plugin_dir(identity),
                    sidecar_missing,
                ),
                results,
            ),
        ),
{
    let script = install_script(identity, local, name, sidecar, true);
    let m = fresh(script, plugin_dir(identity), sidecar_missing);
    assert(script_clears(script)) by {
        assert(script[3] == OpView::Remove(plugin_path(identity, name)));
        assert(script[4] == OpView::Remove(plugin_path(identity, sidecar_name())));
    }
    let none = Seq::<TaskView>::empty();
    let (first, task) = started(m);
    lemma_step_keeps_track(m, none, None, first, task);
    lemma_run_clears(first, none.push(task), results);
    assert(none.push(task) =~= seq![task]);
}

proof fn lemma_run_keeps(m: RunnerView, results: Seq<Handed>)
    requires
        script_keeps(m.script),
        m.phase != Phase::Probing,
    ensures
        forall|j: int|
            0 <= j < answers(m, results).len() ==> !(#[trigger] answers(m, results)[j] matches TaskView::Transfer(
                OpView::Remove(_),
            )),
    decreases results.len(),
{
    if results.len() > 0 {
        let (next, task) = stepped(m, results[0]);
        lemma_run_keeps(next, results.drop_first());
        let rest = answers(next, results.drop_first());
        assert forall|j: int| 0 <= j < answers(m, results).len() implies !(#[trigger] answers(
            m,
            results,
        )[j] matches TaskView::Transfer(OpView::Remove(_))) by {
            if j > 0 {
                assert(answers(m, results)[j] == rest[j - 1]);
            }
        }
    }
}

/// An installation that does not clear the destination never asks for a
/// removal: a file that is there is overwritten by the upload alone.
pub proof fn law_overwrites_in_place(
    identity: Seq<char>,
    local: Seq<char>,
    name: Seq<char>,
    sidecar: Option<Seq<char>>,
    sidecar_missing: bool,
    results: Seq<Handed>,
    j: int,
)
    requires
        0 <= j < run(
            fresh(
                install_script(identity, local, name, sidecar, false),
                plugin_dir(identity),
                sidecar_missing,
            ),
            results,
        ).len(),
    ensures
        !(run(
            fresh(
                install_script(identity, local, name, sidecar, false),
                plugin_dir(identity),
                sidecar_missing,
            ),
            results,
        )[j] matches TaskView::Transfer(OpView::Remove(_))),
{
    let script = install_script(identity, local, name, sidecar, false);
    let m = fresh(script, plugin_dir(identity), sidecar_missing);
    assert(script_keeps(script));
    let (first, task) = started(m);
    lemma_run_keeps(first, results);
    if j > 0 {
        assert(run(m, results)[j] == answers(first, results)[j - 1]);
    }
}

/// Whether no run in `trace` is finished but right after the request to close
/// the session, or after an earlier finish.
pub open spec fn finishes_after_close(trace: Seq<TaskView>) -> bool {
    &&& trace.len() > 0 ==> !(trace[0] is Finish)
    &&& forall|j: int|
        1 <= j < trace.len() && #[trigger] trace[j] is Finish ==> (trace[j - 1]
            == TaskView::Transfer(OpView::Close) || trace[j - 1] is Finish)
}

spec fn marks_the_end(m: RunnerView, last: TaskView) -> bool {
    &&& m.phase == Phase::Closing ==> last == TaskView::Transfer(OpView::Close)
    &&& m.phase == Phase::Done ==> last is Finish
}

proof fn lemma_run_closes(m: RunnerView, trace: Seq<TaskView>, results: Seq<Handed>)
    requires
        trace.len() > 0,
        marks_the_end(m, trace.last()),
        finishes_after_close(trace),
    ensures
        finishes_after_close(trace + answers(m, results)),
    decreases results.len(),
{
    if results.len() == 0 {
        assert(trace + answers(m, results) =~= trace);
    } else {
        let (next, task) = stepped(m, results[0]);
        let longer = trace.push(task);
        assert forall|j: int| 1 <= j < longer.len() && #[trigger] longer[j] is Finish implies (
        longer[j - 1] == TaskView::Transfer(OpView::Close) || longer[j - 1] is Finish) by {
            if j < trace.len() {
                assert(trace[j] is Finish);
            }
        }
        lemma_run_closes(next, longer, results.drop_first());
        assert(trace + answers(m, results) =~= longer + answers(next, results.drop_first()));
    }
}

/// The session is closed on every way out: whatever the script and whatever
/// the device answers, a run does not begin by finishing, and it finishes only
/// right after it has asked for the session to be closed.
pub proof fn law_closes_on_every_way_out(
    script: Seq<OpView>,
    probe_dir: Seq<char>,
    sidecar_missing: bool,
    results: Seq<Handed>,
)
    ensures
        finishes_after_close(run(fresh(script, probe_dir, sidecar_missing), results)),
{
    let m = fresh(script, probe_dir, sidecar_missing);
    let (first, task) = started(m);
    lemma_run_closes(first, seq![task], results);
}

spec fn no_line_break(bytes: Seq<u8>) -> bool {
    forall|i: int| 0 <= i < bytes.len() ==> #[trigger] bytes[i] != CR && bytes[i] != LF
}

proof fn lemma_joined_without_line_break(a: Seq<char>, b: Seq<char>)
    requires
        no_line_break(encode_utf8(a)),
        no_line_break(encode_utf8(b)),
    ensures
        no_line_break(encode_utf8(a + b)),
        encode_utf8(a + b).len() == encode_utf8(a).len() + encode_utf8(b).len(),
{
    lemma_bytes_of_concat(a, b);
    let joined = encode_utf8(a + b);
    let first = encode_utf8(a);
    assert forall|i: int| 0 <= i < joined.len() implies #[trigger] joined[i] != CR && joined[i]
        != LF by {
        if i < first.len() {
            assert(joined[i] == first[i]);
        } else {
            assert(joined[i] == encode_utf8(b)[i - first.len()]);
        }
    }
}

proof fn lemma_plain_text(text: Seq<char>)
    requires
        is_ascii_chars(text),
        forall|i: int| 0 <= i < text.len() ==> #[trigger] text[i] != '\r' && text[i] != '\n',
    ensures
        no_line_break(encode_utf8(text)),
        encode_utf8(text).len() == text.len(),
{
    is_ascii_chars_encode_utf8(text);
    let bytes = encode_utf8(text);
    assert forall|i: int| 0 <= i < bytes.len() implies #[trigger] bytes[i] != CR && bytes[i]
        != LF by {
        assert(text[i] as u8 == bytes[i]);
    }
}

/// The paths of an installation can always be sent: for a well-formed
/// identity, the application's directory, its plugin directory and the place
/// of the sidecar file hold no line break, and neither does the place of a
/// plugin whose name holds none. Nothing but the identity and that name goes
/// into them.
pub proof fn law_paths_are_sendable(identity: Seq<char>, name: Seq<char>)
    requires
        is_title_id_text(identity),
    ensures
        is_sendable_text(app_dir(identity)),
        is_sendable_text(plugin_dir(identity)),
        is_sendable_text(plugin_path(identity, sidecar_name())),
        is_sendable_text(name) ==> is_sendable_text(plugin_path(identity, name)),
{
    reveal_strlit("/atmosphere/contents");
    reveal_strlit("/");
    reveal_strlit("/plugins");
    reveal_strlit("main.npdm");
    lemma_plain_text("/atmosphere/contents"@);
    lemma_plain_text("/"@);
    lemma_plain_text("/plugins"@);
    lemma_plain_text("main.npdm"@);
    assert(no_line_break(encode_utf8(identity))) by {
        let bytes = encode_utf8(identity);
        assert forall|i: int| 0 <= i < bytes.len() implies #[trigger] bytes[i] != CR && bytes[i]
            != LF by {
            assert(is_hex_digit(bytes[i]));
        }
    }
    lemma_joined_without_line_break(device_app_root(), "/"@);
    lemma_joined_without_line_break(device_app_root() + "/"@, identity);
    lemma_joined_without_line_break(app_dir(identity), "/plugins"@);
    lemma_joined_without_line_break(plugin_dir(identity), "/"@);
    lemma_joined_without_line_break(plugin_dir(identity) + "/"@, sidecar_name());
    if is_sendable_text(name) {
        lemma_joined_without_line_break(plugin_dir(identity) + "/"@, name);
    }
}

/// Nothing is tried a second time. An operation that failed is not asked for
/// again: the run goes to its end with that failure, but for a removal, which
/// is looked into once by a listing, and then either counts as done or ends the
/// run with its own failure.
pub proof fn law_no_retry(m: RunnerView, e: TransferFault, probe: Handed)
    requires
        m.phase == Phase::Running,
        0 <= m.cursor < m.script.len(),
    ensures
        ({
            let (next, task) = stepped(m, Err(e));
            let (after, then) = stepped(next, probe);
            if m.script[m.cursor] is Remove {
                &&& task == TaskView::Transfer(OpView::ListDir(m.probe_dir))
                &&& after.cursor == m.cursor + 1 || (then == TaskView::Transfer(OpView::Close)
                    && after.verdict == Some(e))
            } else {
                &&& task == TaskView::Transfer(OpView::Close)
                &&& next.verdict == Some(e)
                &&& then == TaskView::Finish(Err(e))
            }
        }),
{
}

/// The session is closed on every way out: a run is finished only from the
/// step that follows the request to close.
pub proof fn law_closes_before_finish(m: RunnerView, r: Handed)
    requires
        m.phase != Phase::Done,
    ensures
        stepped(m, r).1 is Finish ==> m.phase == Phase::Closing,
        stepped(m, r).0.phase == Phase::Closing ==> stepped(m, r).1 == TaskView::Transfer(
            OpView::Close,
        ),
{
}

} // verus!
