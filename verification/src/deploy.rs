//! The commands as the operator gives them: resolve the address and the
//! application, store an address that came with the command, install or list,
//! and listen; each as one machine that says what is to be done next.

use crate::address::{
    failure_at, resolve_address, resolved_address, stored_after_resolve, AddressStore,
    DeviceAddress, PersistStep,
};
use crate::error::{Error, Fault, PersistError, ResolveError, TransferError, TransferFault};
use crate::identity::{plugin_dir, resolve, resolved_identity};
use crate::installer::{
    duplicate_lines, fresh, install_script, list_script, sidecar_is_missing, sidecar_to_upload,
    started, stepped, Artifact, Handed, Runner, RunnerView, Sidecar, Task, TaskView,
};
use crate::listener::{
    heard, idle, Heard, HeardView, ListenTask, ListenTaskView, Listener, ListenerView,
    DIAGNOSTICS_PORT,
};
use crate::transfer::{
    out_of_turn, unopened, Op, OpView, Outcome, OutcomeView, TransferSession, CONTROL_PORT,
};
use vstd::prelude::*;
use vstd::string::*;

verus! {

/// What the project hands to a command: the identity that its configuration
/// declares, the plugin as it was built, and the sidecar file that it declares.
pub struct Project {
    pub title_id: Option<String>,
    pub artifact: Artifact,
    pub sidecar: Option<Sidecar>,
}

/// Where a command stands.
#[derive(Clone, Copy, Debug, PartialEq, Eq, Structural)]
pub enum DeployPhase {
    /// Nothing was asked yet.
    Idle,
    /// The address that came with the command is being stored.
    Saving,
    /// The installation, or the listing, is under way.
    Installing,
    /// The diagnostic output is being followed.
    Listening,
    /// All is over.
    Done,
}

/// What a command asks for.
pub enum Work {
    /// Store this address as the one to use from now on.
    Save(String),
    /// Run this operation on the session with the file service.
    Transfer(Op),
    /// Do this on the connection to the diagnostic output; never `Finish`.
    Listen(ListenTask),
    /// Nothing more: the lines to show to the operator, or the failure.
    Finish(Result<Vec<String>, Error>),
}

/// How what a command asked for went.
pub enum Report {
    /// The address is stored.
    Saved,
    /// The address could not be stored; writing it stopped at this step.
    SaveFailed(PersistStep),
    /// The operation on the session ended like this.
    Transferred(Result<Outcome, TransferError>),
    /// The task on the connection to the diagnostic output went like this.
    Heard(Heard),
}

pub enum WorkView {
    Save(Seq<char>),
    Transfer(OpView),
    Listen(ListenTaskView),
    Finish(Result<Seq<Seq<char>>, Fault>),
}

pub enum ReportView {
    Saved,
    SaveFailed(PersistStep),
    Transferred(Handed),
    Heard(HeardView),
}

impl View for Work {
    type V = WorkView;

    open spec fn view(&self) -> WorkView {
        match self {
            Work::Save(address) => WorkView::Save(address@),
            Work::Transfer(op) => WorkView::Transfer(op@),
            Work::Listen(task) => WorkView::Listen(task@),
            Work::Finish(Ok(lines)) => WorkView::Finish(Ok(lines.deep_view())),
            Work::Finish(Err(e)) => WorkView::Finish(Err(e@)),
        }
    }
}

impl View for Report {
    type V = ReportView;

    open spec fn view(&self) -> ReportView {
        match self {
            Report::Saved => ReportView::Saved,
            Report::SaveFailed(step) => ReportView::SaveFailed(*step),
            Report::Transferred(Ok(outcome)) => ReportView::Transferred(Ok(outcome@)),
            Report::Transferred(Err(e)) => ReportView::Transferred(Err(e@)),
            Report::Heard(h) => ReportView::Heard(h@),
        }
    }
}

/// A command as the contracts see it.
pub struct DeploymentView {
    /// The address of the device.
    pub host: Seq<char>,
    /// Whether the address came with the command and is to be stored.
    pub save: bool,
    /// The failure that ends the command, once there is one.
    pub failure: Option<Fault>,
    /// The installation or listing, where the command has one.
    pub runner: Option<RunnerView>,
    /// The listening session, where the command has one.
    pub listener: Option<ListenerView>,
    pub phase: DeployPhase,
    /// The lines to show to the operator when all went well.
    pub lines: Seq<Seq<char>>,
}

/// How a command ends: with its failure if there is one, else with the lines
/// to show.
pub open spec fn outcome_of(d: DeploymentView) -> Result<Seq<Seq<char>>, Fault> {
    match d.failure {
        Some(e) => Err(e),
        None => Ok(d.lines),
    }
}

/// The end of the command.
pub open spec fn finishing(d: DeploymentView, failure: Option<Fault>) -> (DeploymentView, WorkView) {
    let over = DeploymentView { phase: DeployPhase::Done, failure, ..d };
    (over, WorkView::Finish(outcome_of(over)))
}

/// The command after a step of its listening session: it hands the
/// listener's task on, and ends when the listener finishes.
pub open spec fn after_listener(d: DeploymentView, next: ListenerView, task: ListenTaskView) -> (
    DeploymentView,
    WorkView,
) {
    let now = DeploymentView { listener: Some(next), phase: DeployPhase::Listening, ..d };
    match task {
        ListenTaskView::Finish(Ok(_)) => finishing(now, None),
        ListenTaskView::Finish(Err(e)) => finishing(now, Some(Fault::Listen(e))),
        _ => (now, WorkView::Listen(task)),
    }
}

/// The command once the installation is behind it: it listens if it is to,
/// and is over if not.
pub open spec fn to_listening(d: DeploymentView) -> (DeploymentView, WorkView) {
    match d.listener {
        Some(l) => {
            let (next, task) = heard(l, HeardView::Connected);
            after_listener(d, next, task)
        },
        None => finishing(d, None),
    }
}

/// The command after a step of its installation: it hands the operation on;
/// when the installation has succeeded it goes on to listen; when the
/// installation has failed it ends with that failure, and does not listen.
pub open spec fn after_runner(d: DeploymentView, next: RunnerView, task: TaskView) -> (
    DeploymentView,
    WorkView,
) {
    let now = DeploymentView { runner: Some(next), phase: DeployPhase::Installing, ..d };
    match task {
        TaskView::Transfer(op) => (now, WorkView::Transfer(op)),
        TaskView::Finish(Ok(lines)) => to_listening(DeploymentView { lines, ..now }),
        TaskView::Finish(Err(e)) => finishing(now, Some(Fault::Transfer(e))),
    }
}

/// The command once the address is settled: it ends with the failure that it
/// was made with, if any; else it installs if it is to, and goes on to listen
/// if not.
pub open spec fn to_installing(d: DeploymentView) -> (DeploymentView, WorkView) {
    match d.failure {
        Some(e) => finishing(d, Some(e)),
        None => match d.runner {
            Some(r) => {
                let (next, task) = started(r);
                after_runner(d, next, task)
            },
            None => to_listening(d),
        },
    }
}

/// What is handed to the installation for a report.
pub open spec fn handed(report: ReportView) -> Handed {
    match report {
        ReportView::Transferred(r) => r,
        _ => Err(TransferFault::TransferFailure(out_of_turn())),
    }
}

/// What is handed to the listening session for a report.
pub open spec fn listened(report: ReportView) -> HeardView {
    match report {
        ReportView::Heard(h) => h,
        _ => HeardView::Ended,
    }
}

/// The step of the machine.
///
/// A command first stores the address that came with it, and ends as the
/// store's failure says if that cannot be done. It then ends at once if it was
/// made with a failure. Else it installs or lists, if it is to; then it
/// listens, if it is to; then it is over.
pub open spec fn deployed(d: DeploymentView, report: ReportView) -> (DeploymentView, WorkView) {
    match d.phase {
        DeployPhase::Idle => if d.save {
            (DeploymentView { phase: DeployPhase::Saving, ..d }, WorkView::Save(d.host))
        } else {
            to_installing(d)
        },
        DeployPhase::Saving => match report {
            ReportView::Saved => to_installing(d),
            ReportView::SaveFailed(step) => finishing(d, Some(Fault::Persist(failure_at(step)))),
            _ => finishing(d, Some(Fault::Persist(PersistError::WriteIpDenied))),
        },
        DeployPhase::Installing => match d.runner {
            Some(r) => {
                let (next, task) = stepped(r, handed(report));
                after_runner(d, next, task)
            },
            None => to_listening(d),
        },
        DeployPhase::Listening => match d.listener {
            Some(l) => {
                let (next, task) = heard(l, listened(report));
                after_listener(d, next, task)
            },
            None => finishing(d, None),
        },
        DeployPhase::Done => (d, WorkView::Finish(outcome_of(d))),
    }
}

/// A command that has not begun.
pub open spec fn planned(
    host: Seq<char>,
    save: bool,
    failure: Option<Fault>,
    runner: Option<RunnerView>,
    listener: Option<ListenerView>,
) -> DeploymentView {
    DeploymentView {
        host,
        save,
        failure,
        runner,
        listener,
        phase: DeployPhase::Idle,
        lines: Seq::empty(),
    }
}

/// A command that cannot begin for want of an address.
pub open spec fn unaddressed(e: ResolveError) -> DeploymentView {
    planned(Seq::empty(), false, Some(Fault::Resolve(e)), None, None)
}

/// The command that installs the project's plugin.
///
/// Without a well-formed address it ends at once, as `NoIpFound` or
/// `BadIpAddr`, and asks for nothing. With an address and without an
/// application identity it stores the address, if that came with the command,
/// and ends as `NoTitleId`. Else it stores the address, if that came with the
/// command, installs, and, where `marker` is given, listens.
pub open spec fn install_plan(
    ip: Option<Seq<char>>,
    title_id: Option<Seq<char>>,
    clear_existing: bool,
    stored: Option<Seq<char>>,
    project: Project,
    marker: Option<Seq<u8>>,
) -> DeploymentView {
    match resolved_address(ip, stored) {
        Err(e) => unaddressed(e),
        Ok(host) => match resolved_identity(title_id, project.title_id.deep_view()) {
            None => planned(
                host,
                ip is Some,
                Some(Fault::Resolve(ResolveError::NoTitleId)),
                None,
                None,
            ),
            Some(identity) => planned(
                host,
                ip is Some,
                None,
                Some(
                    fresh(
                        install_script(
                            identity,
                            project.artifact.local@,
                            project.artifact.name@,
                            sidecar_to_upload(project.sidecar),
                            clear_existing,
                        ),
                        plugin_dir(identity),
                        sidecar_is_missing(project.sidecar),
                    ),
                ),
                match marker {
                    Some(m) => Some(idle(host, m)),
                    None => None,
                },
            ),
        },
    }
}

/// The command that lists the plugins of an application: it resolves the
/// address and the identity as an installation does, and then lists.
pub open spec fn list_plan(
    ip: Option<Seq<char>>,
    title_id: Option<Seq<char>>,
    stored: Option<Seq<char>>,
    project_title_id: Option<Seq<char>>,
) -> DeploymentView {
    match resolved_address(ip, stored) {
        Err(e) => unaddressed(e),
        Ok(host) => match resolved_identity(title_id, project_title_id) {
            None => planned(
                host,
                ip is Some,
                Some(Fault::Resolve(ResolveError::NoTitleId)),
                None,
                None,
            ),
            Some(identity) => planned(
                host,
                ip is Some,
                None,
                Some(fresh(list_script(identity), plugin_dir(identity), false)),
                None,
            ),
        },
    }
}

/// The command that follows the diagnostic output: it resolves the address as
/// an installation does, and then listens.
pub open spec fn listen_plan(
    ip: Option<Seq<char>>,
    stored: Option<Seq<char>>,
    marker: Seq<u8>,
) -> DeploymentView {
    match resolved_address(ip, stored) {
        Err(e) => unaddressed(e),
        Ok(host) => planned(host, ip is Some, None, None, Some(idle(host, marker))),
    }
}

/// The address as text; the empty text where there is none.
pub open spec fn host_of(address: Option<DeviceAddress>) -> Seq<char> {
    match address {
        Some(a) => a@,
        None => Seq::empty(),
    }
}

/// One command, from the resolution of its target to its end.
pub struct Deployment {
    address: Option<DeviceAddress>,
    save: bool,
    failure: Option<Error>,
    runner: Option<Runner>,
    listener: Option<Listener>,
    phase: DeployPhase,
    lines: Vec<String>,
}

impl View for Deployment {
    type V = DeploymentView;

    closed spec fn view(&self) -> DeploymentView {
        DeploymentView {
            host: host_of(self.address),
            save: self.save,
            failure: match self.failure {
                Some(e) => Some(e@),
                None => None,
            },
            runner: match self.runner {
                Some(r) => Some(r@),
                None => None,
            },
            listener: match self.listener {
                Some(l) => Some(l@),
                None => None,
            },
            phase: self.phase,
            lines: self.lines.deep_view(),
        }
    }
}

impl Deployment {
    fn plan(
        address: Option<DeviceAddress>,
        save: bool,
        failure: Option<Error>,
        runner: Option<Runner>,
        listener: Option<Listener>,
    ) -> (d: Deployment)
        ensures
            d@ == planned(
                host_of(address),
                save,
                match failure {
                    Some(e) => Some(e@),
                    None => None,
                },
                match runner {
                    Some(r) => Some(r@),
                    None => None,
                },
                match listener {
                    Some(l) => Some(l@),
                    None => None,
                },
            ),
    {
        let d = Deployment {
            address,
            save,
            failure,
            runner,
            listener,
            phase: DeployPhase::Idle,
            lines: Vec::new(),
        };
        assert(d@.lines =~= Seq::<Seq<char>>::empty());
        d
    }

    fn make(
        ip: Option<&str>,
        title_id: Option<&str>,
        clear_existing: bool,
        store: &mut AddressStore,
        project: &Project,
        marker: Option<&[u8]>,
    ) -> (d: Deployment)
        ensures
            d@ == install_plan(
                ip.deep_view(),
                title_id.deep_view(),
                clear_existing,
                old(store)@,
                *project,
                match marker {
                    Some(m) => Some(m@),
                    None => None,
                },
            ),
            final(store)@ == stored_after_resolve(ip.deep_view(), old(store)@),
    {
        let save = ip.is_some();
        let address = match resolve_address(ip, store) {
            Ok(address) => address,
            Err(e) => {
                return Deployment::plan(None, false, Some(Error::Resolve(e)), None, None);
            },
        };
        let declared = match &project.title_id {
            Some(text) => Some(text.as_str()),
            None => None,
        };
        let identity = match resolve(title_id, declared) {
            Ok(identity) => identity,
            Err(e) => {
                return Deployment::plan(Some(address), save, Some(Error::Resolve(e)), None, None);
            },
        };
        let runner = Runner::install(
            &identity,
            &project.artifact,
            project.sidecar.as_ref(),
            clear_existing,
        );
        let listener = match marker {
            Some(m) => Some(Listener::new(&address, m)),
            None => None,
        };
        Deployment::plan(Some(address), save, None, Some(runner), listener)
    }

    /// The command that installs the project's plugin on the device. An
    /// address that comes with the command becomes the stored one.
    pub fn install(
        ip: Option<&str>,
        title_id: Option<&str>,
        clear_existing: bool,
        store: &mut AddressStore,
        project: &Project,
    ) -> (d: Deployment)
        ensures
            d@ == install_plan(
                ip.deep_view(),
                title_id.deep_view(),
                clear_existing,
                old(store)@,
                *project,
                None,
            ),
            final(store)@ == stored_after_resolve(ip.deep_view(), old(store)@),
    {
        Deployment::make(ip, title_id, clear_existing, store, project, None)
    }

    /// The command that installs the project's plugin and then follows the
    /// diagnostic output of the same device, which says that it is ready by
    /// sending `marker`.
    pub fn install_and_run(
        ip: Option<&str>,
        title_id: Option<&str>,
        clear_existing: bool,
        store: &mut AddressStore,
        project: &Project,
        marker: &[u8],
    ) -> (d: Deployment)
        ensures
            d@ == install_plan(
                ip.deep_view(),
                title_id.deep_view(),
                clear_existing,
                old(store)@,
                *project,
                Some(marker@),
            ),
            final(store)@ == stored_after_resolve(ip.deep_view(), old(store)@),
    {
        Deployment::make(ip, title_id, clear_existing, store, project, Some(marker))
    }

    /// The command that lists the plugins that are installed for an
    /// application.
    pub fn list(
        ip: Option<&str>,
        title_id: Option<&str>,
        store: &mut AddressStore,
        project_title_id: Option<&str>,
    ) -> (d: Deployment)
        ensures
            d@ == list_plan(
                ip.deep_view(),
                title_id.deep_view(),
                old(store)@,
                project_title_id.deep_view(),
            ),
            final(store)@ == stored_after_resolve(ip.deep_view(), old(store)@),
    {
        let save = ip.is_some();
        let address = match resolve_address(ip, store) {
            Ok(address) => address,
            Err(e) => {
                return Deployment::plan(None, false, Some(Error::Resolve(e)), None, None);
            },
        };
        match resolve(title_id, project_title_id) {
            Ok(identity) => Deployment::plan(
                Some(address),
                save,
                None,
                Some(Runner::list(&identity)),
                None,
            ),
            Err(e) => Deployment::plan(Some(address), save, Some(Error::Resolve(e)), None, None),
        }
    }

    /// The command that follows the diagnostic output of the device, which
    /// says that it is ready by sending `marker`.
    pub fn listen(ip: Option<&str>, store: &mut AddressStore, marker: &[u8]) -> (d: Deployment)
        ensures
            d@ == listen_plan(ip.deep_view(), old(store)@, marker@),
            final(store)@ == stored_after_resolve(ip.deep_view(), old(store)@),
    {
        let save = ip.is_some();
        match resolve_address(ip, store) {
            Ok(address) => {
                let listener = Listener::new(&address, marker);
                Deployment::plan(Some(address), save, None, None, Some(listener))
            },
            Err(e) => Deployment::plan(None, false, Some(Error::Resolve(e)), None, None),
        }
    }

    /// The address of the device; `None` where none was resolved.
    pub fn address(&self) -> (address: Option<&DeviceAddress>)
        ensures
            address is Some ==> address->0@ == self@.host,
            address is None ==> self@.host.len() == 0,
    {
        self.address.as_ref()
    }

    /// A session with the file service of the device, with nothing opened
    /// yet; `None` where no address was resolved.
    pub fn session(&self) -> (session: Option<TransferSession>)
        ensures
            session is Some ==> session->0@ == unopened(self@.host),
            session is None ==> self@.host.len() == 0,
    {
        match &self.address {
            Some(address) => Some(TransferSession::new(address)),
            None => None,
        }
    }

    /// Where the command stands.
    pub fn phase(&self) -> (phase: DeployPhase)
        ensures
            phase == self@.phase,
    {
        self.phase
    }

    fn finish(&mut self, failure: Option<Error>) -> (out: Work)
        ensures
            (final(self)@, out@) == finishing(
                old(self)@,
                match failure {
                    Some(e) => Some(e@),
                    None => None,
                },
            ),
    {
        self.phase = DeployPhase::Done;
        self.failure = failure;
        self.outcome()
    }

    fn outcome(&self) -> (out: Work)
        ensures
            out@ == WorkView::Finish(outcome_of(self@)),
    {
        match &self.failure {
            Some(e) => Work::Finish(Err(e.duplicate())),
            None => Work::Finish(Ok(duplicate_lines(&self.lines))),
        }
    }

    fn after_listener(&mut self, next: Listener, task: ListenTask) -> (out: Work)
        ensures
            (final(self)@, out@) == after_listener(old(self)@, next@, task@),
    {
        self.listener = Some(next);
        self.phase = DeployPhase::Listening;
        match task {
            ListenTask::Finish(Ok(_)) => self.finish(None),
            ListenTask::Finish(Err(e)) => self.finish(Some(Error::Listen(e))),
            _ => Work::Listen(task),
        }
    }

    fn to_listening(&mut self) -> (out: Work)
        ensures
            (final(self)@, out@) == to_listening(old(self)@),
    {
        match self.listener.take() {
            Some(listener) => {
                let mut listener = listener;
                let task = listener.step(Heard::Connected);
                self.after_listener(listener, task)
            },
            None => self.finish(None),
        }
    }

    fn after_runner(&mut self, next: Runner, task: Task) -> (out: Work)
        ensures
            (final(self)@, out@) == after_runner(old(self)@, next@, task@),
    {
        self.runner = Some(next);
        self.phase = DeployPhase::Installing;
        match task {
            Task::Transfer(op) => Work::Transfer(op),
            Task::Finish(Ok(lines)) => {
                self.lines = lines;
                self.to_listening()
            },
            Task::Finish(Err(e)) => self.finish(Some(Error::Transfer(e))),
        }
    }

    fn to_installing(&mut self) -> (out: Work)
        ensures
            (final(self)@, out@) == to_installing(old(self)@),
    {
        if self.failure.is_some() {
            let failure = self.failure.take();
            return self.finish(failure);
        }
        match self.runner.take() {
            Some(runner) => {
                let mut runner = runner;
                let task = runner.start();
                self.after_runner(runner, task)
            },
            None => self.to_listening(),
        }
    }

    /// Begins the command: says what is to be done first.
    pub fn start(&mut self) -> (out: Work)
        ensures
            (final(self)@, out@) == deployed(old(self)@, ReportView::Saved),
    {
        self.step(Report::Saved)
    }

    /// Takes the report on what the command asked for last, and says what is
    /// to be done next.
    pub fn step(&mut self, report: Report) -> (out: Work)
        ensures
            (final(self)@, out@) == deployed(old(self)@, report@),
    {
        match self.phase {
            DeployPhase::Idle => {
                if self.save {
                    self.phase = DeployPhase::Saving;
                    match &self.address {
                        Some(address) => Work::Save(String::from_str(address.as_str())),
                        None => Work::Save(String::new()),
                    }
                } else {
                    self.to_installing()
                }
            },
            DeployPhase::Saving => {
                match report {
                    Report::Saved => self.to_installing(),
                    Report::SaveFailed(step) => self.finish(
                        Some(crate::address::persist_failure(step)),
                    ),
                    _ => self.finish(Some(Error::Persist(PersistError::WriteIpDenied))),
                }
            },
            DeployPhase::Installing => {
                match self.runner.take() {
                    Some(runner) => {
                        let mut runner = runner;
                        let result = match report {
                            Report::Transferred(r) => r,
                            _ => Err(
                                TransferError::TransferFailure(
                                    String::from_str("The connection answered out of turn"),
                                ),
                            ),
                        };
                        let task = runner.step(result);
                        self.after_runner(runner, task)
                    },
                    None => self.to_listening(),
                }
            },
            DeployPhase::Listening => {
                match self.listener.take() {
                    Some(listener) => {
                        let mut listener = listener;
                        let result = match report {
                            Report::Heard(h) => h,
                            _ => Heard::Ended,
                        };
                        let task = listener.step(result);
                        self.after_listener(listener, task)
                    },
                    None => self.finish(None),
                }
            },
            DeployPhase::Done => self.outcome(),
        }
    }
}

/// What the command asks for, work by work, when the reports in `reports` are
/// handed to it in turn. The first report only sets the command going.
pub open spec fn works(d: DeploymentView, reports: Seq<ReportView>) -> Seq<WorkView>
    decreases reports.len(),
{
    if reports.len() == 0 {
        Seq::empty()
    } else {
        let (next, work) = deployed(d, reports[0]);
        seq![work] + works(next, reports.drop_first())
    }
}

proof fn lemma_done_is_final(d: DeploymentView, reports: Seq<ReportView>, j: int)
    requires
        d.phase == DeployPhase::Done,
        0 <= j < works(d, reports).len(),
    ensures
        works(d, reports)[j] == WorkView::Finish(outcome_of(d)),
    decreases reports.len(),
{
    if j > 0 {
        let (next, work) = deployed(d, reports[0]);
        lemma_done_is_final(next, reports.drop_first(), j - 1);
        assert(works(d, reports)[j] == works(next, reports.drop_first())[j - 1]);
    }
}

/// Once a command has finished it asks for nothing more: whatever is handed
/// to it, it finishes again in the same way.
pub proof fn law_nothing_after_finish(
    d: DeploymentView,
    reports: Seq<ReportView>,
    i: int,
    j: int,
)
    requires
        0 <= i < j < works(d, reports).len(),
        works(d, reports)[i] is Finish,
    ensures
        works(d, reports)[j] == works(d, reports)[i],
    decreases reports.len(),
{
    let (next, work) = deployed(d, reports[0]);
    let rest = works(next, reports.drop_first());
    assert(works(d, reports)[j] == rest[j - 1]);
    if i == 0 {
        assert(next.phase == DeployPhase::Done);
        assert(work == WorkView::Finish(outcome_of(next)));
        lemma_done_is_final(next, reports.drop_first(), j - 1);
    } else {
        assert(works(d, reports)[i] == rest[i - 1]);
        law_nothing_after_finish(next, reports.drop_first(), i - 1, j - 1);
    }
}

/// Without an address, given or stored, a command ends as `NoIpFound` and
/// never asks for a connection: all it ever asks for is to finish with that
/// failure.
pub proof fn law_no_address_no_connection(
    title_id: Option<Seq<char>>,
    clear_existing: bool,
    project: Project,
    marker: Option<Seq<u8>>,
    reports: Seq<ReportView>,
    j: int,
)
    requires
        0 <= j < works(install_plan(None, title_id, clear_existing, None, project, marker), reports).len(),
    ensures
        works(install_plan(None, title_id, clear_existing, None, project, marker), reports)[j]
            == WorkView::Finish(Err(Fault::Resolve(ResolveError::NoIpFound))),
{
    let d = install_plan(None, title_id, clear_existing, None, project, marker);
    let (next, work) = deployed(d, reports[0]);
    if j > 0 {
        lemma_done_is_final(next, reports.drop_first(), j - 1);
        assert(works(d, reports)[j] == works(next, reports.drop_first())[j - 1]);
    }
}

/// A command whose address cannot be resolved, for want of one or because it
/// is malformed, asks for nothing: not for a connection, and not for the
/// address to be stored. All it ever does is finish with that failure.
pub proof fn law_unresolved_address_asks_nothing(
    ip: Option<Seq<char>>,
    title_id: Option<Seq<char>>,
    clear_existing: bool,
    stored: Option<Seq<char>>,
    project: Project,
    marker: Option<Seq<u8>>,
    reports: Seq<ReportView>,
    j: int,
)
    requires
        resolved_address(ip, stored) is Err,
        0 <= j < works(install_plan(ip, title_id, clear_existing, stored, project, marker), reports).len(),
    ensures
        works(install_plan(ip, title_id, clear_existing, stored, project, marker), reports)[j]
            == WorkView::Finish(Err(Fault::Resolve(resolved_address(ip, stored)->Err_0))),
{
    let d = install_plan(ip, title_id, clear_existing, stored, project, marker);
    let (next, work) = deployed(d, reports[0]);
    if j > 0 {
        lemma_done_is_final(next, reports.drop_first(), j - 1);
        assert(works(d, reports)[j] == works(next, reports.drop_first())[j - 1]);
    }
}

/// An installation that fails ends the command with its failure, at the very
/// step at which the installation ends; the listening session is left as it
/// was, and by `law_nothing_after_finish` nothing is asked of it later.
pub proof fn law_failed_install_ends(d: DeploymentView, report: ReportView, e: TransferFault)
    requires
        d.phase == DeployPhase::Installing,
        d.runner is Some,
        stepped(d.runner->0, handed(report)).1 == TaskView::Finish(Err(e)),
    ensures
        deployed(d, report).1 == WorkView::Finish(Err(Fault::Transfer(e))),
        deployed(d, report).0.phase == DeployPhase::Done,
        deployed(d, report).0.listener == d.listener,
{
}

/// A command asks for the connection to the diagnostic output only when it
/// has no installation to make, or at the step at which its installation ends
/// well.
pub proof fn law_listens_only_after_success(d: DeploymentView, report: ReportView)
    requires
        d.phase != DeployPhase::Listening,
        deployed(d, report).1 is Listen,
    ensures
        d.phase != DeployPhase::Installing ==> d.failure is None,
        d.listener is Some,
        d.runner is Some ==> (if d.phase == DeployPhase::Installing {
            stepped(d.runner->0, handed(report)).1 matches TaskView::Finish(Ok(_))
        } else {
            started(d.runner->0).1 matches TaskView::Finish(Ok(_))
        }),
{
}

/// A command that resolves its target and is not to store anything begins
/// with the connection to the file service of the resolved address; none of
/// its operations is asked for before that.
pub proof fn law_begins_by_connecting(
    ip: Option<Seq<char>>,
    title_id: Option<Seq<char>>,
    clear_existing: bool,
    stored: Option<Seq<char>>,
    project: Project,
    marker: Option<Seq<u8>>,
    report: ReportView,
)
    requires
        resolved_address(ip, stored) is Ok,
        resolved_identity(title_id, project.title_id.deep_view()) is Some,
    ensures
        ({
            let d = install_plan(ip, title_id, clear_existing, stored, project, marker);
            let (first, work) = deployed(d, report);
            if ip is Some {
                &&& work == WorkView::Save(ip->0)
                &&& deployed(first, ReportView::Saved).1 == WorkView::Transfer(OpView::Connect)
            } else {
                work == WorkView::Transfer(OpView::Connect)
            }
        }),
{
}

/// A command that installs and then listens talks to one device: the address
/// that the listening session connects to is the address of the session with
/// the file service, on a port of its own.
pub proof fn law_one_device(
    ip: Option<Seq<char>>,
    title_id: Option<Seq<char>>,
    clear_existing: bool,
    stored: Option<Seq<char>>,
    project: Project,
    marker: Seq<u8>,
)
    requires
        resolved_address(ip, stored) is Ok,
        resolved_identity(title_id, project.title_id.deep_view()) is Some,
    ensures
        ({
            let d = install_plan(ip, title_id, clear_existing, stored, project, Some(marker));
            &&& d.host == resolved_address(ip, stored)->Ok_0
            &&& d.listener is Some
            &&& d.listener->0.host == d.host
            &&& heard(d.listener->0, HeardView::Connected).1 == ListenTaskView::Connect {
                host: d.host,
                port: DIAGNOSTICS_PORT,
            }
            &&& DIAGNOSTICS_PORT != CONTROL_PORT
        }),
{
}

} // verus!
