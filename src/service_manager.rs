use crate::status::{OverallStatus, Priority, StartupError, StartupErrorView, Status, StatusView};
use vstd::prelude::*;

verus! {

/// The time a start or stop routine is given unless configured otherwise.
pub const DEFAULT_TIMEOUT_SECS: u64 = 10;

/// What the orchestrator reads of a service: its identity and its priority.
#[derive(Clone, Debug)]
pub struct ServiceInfo {
    pub id: String,
    pub name: String,
    pub priority: Priority,
}

/// A registered service: its description and the caller's handle to it.
pub struct ServiceEntry<H> {
    pub info: ServiceInfo,
    pub handle: H,
}

/// The abstract value of a registered service together with its status.
pub struct EntryView<H> {
    pub id: Seq<char>,
    pub name: Seq<char>,
    pub priority: Priority,
    pub status: StatusView,
    pub handle: H,
}

/// The abstract value of the orchestrator.
///
/// `tasks` pairs the id of each service whose background work is tracked with
/// the handle of that work, in the order they were recorded.
pub struct ManagerView<H, B> {
    pub entries: Seq<EntryView<H>>,
    pub tasks: Seq<(Seq<char>, B)>,
    pub timeout_secs: u64,
    pub release_finished_tasks: bool,
}

/// What a stop request finds.
#[derive(Clone, Copy, Debug, PartialEq, Eq, Structural)]
pub enum StopDecision {
    /// The id is not registered: nothing is done.
    NotManaged,
    /// The service is not `Started`: nothing is done.
    NotStarted,
    /// The service is now `Stopping`; its stop routine is to be run.
    Proceed,
}

/// Whether some entry carries the id.
pub open spec fn ids_contain<H>(entries: Seq<EntryView<H>>, id: Seq<char>) -> bool {
    exists|i: int| 0 <= i < entries.len() && #[trigger] entries[i].id == id
}

/// No two entries carry the same id.
pub open spec fn ids_unique<H>(entries: Seq<EntryView<H>>) -> bool {
    forall|i: int, j: int|
        0 <= i < entries.len() && 0 <= j < entries.len() && i != j ==> #[trigger] entries[i].id
            != #[trigger] entries[j].id
}

/// No two tracked tasks carry the same id.
pub open spec fn keys_unique<B>(tasks: Seq<(Seq<char>, B)>) -> bool {
    forall|i: int, j: int|
        0 <= i < tasks.len() && 0 <= j < tasks.len() && i != j ==> #[trigger] tasks[i].0
            != #[trigger] tasks[j].0
}

/// Registration: a service joins the list unless its id is already taken,
/// in which case the list is left as it is.
pub open spec fn register<H>(entries: Seq<EntryView<H>>, e: EntryView<H>) -> Seq<EntryView<H>> {
    if ids_contain(entries, e.id) {
        entries
    } else {
        entries.push(e)
    }
}

/// The cause recorded when a service's background work ends.
pub open spec fn crash_cause(outcome: Result<(), Seq<char>>) -> Seq<char> {
    match outcome {
        Ok(()) => "Background task ended unexpectedly!"@,
        Err(e) => "Background task ended with error: "@ + e,
    }
}

impl<H, B> ManagerView<H, B> {
    pub open spec fn manages(self, id: Seq<char>) -> bool {
        ids_contain(self.entries, id)
    }

    /// The position of the service with the given id (meaningful when it is managed).
    pub open spec fn index_of(self, id: Seq<char>) -> int {
        choose|i: int| 0 <= i < self.entries.len() && self.entries[i].id == id
    }

    pub open spec fn status_of(self, id: Seq<char>) -> StatusView {
        self.entries[self.index_of(id)].status
    }

    pub open spec fn has_task(self, id: Seq<char>) -> bool {
        exists|j: int| 0 <= j < self.tasks.len() && #[trigger] self.tasks[j].0 == id
    }

    pub open spec fn task_index(self, id: Seq<char>) -> int {
        choose|j: int| 0 <= j < self.tasks.len() && self.tasks[j].0 == id
    }

    /// The same orchestrator with the status of one managed service replaced.
    pub open spec fn with_status(self, id: Seq<char>, s: StatusView) -> Self {
        if self.manages(id) {
            let i = self.index_of(id);
            ManagerView {
                entries: self.entries.update(i, EntryView { status: s, ..self.entries[i] }),
                ..self
            }
        } else {
            self
        }
    }

    /// Why a start request is refused, checked in this order: not registered,
    /// background work still tracked, not `Stopped`.
    pub open spec fn start_refusal(self, id: Seq<char>) -> Option<StartupErrorView> {
        if !self.manages(id) {
            Some(StartupErrorView::ServiceNotManaged(id))
        } else if self.has_task(id) {
            Some(StartupErrorView::BackgroundTaskAlreadyRunning(id))
        } else if !(self.status_of(id) is Stopped) {
            Some(StartupErrorView::ServiceNotStopped(id))
        } else {
            None
        }
    }

    /// A start request: accepted ones move the service to `Starting`.
    pub open spec fn begin_start(self, id: Seq<char>) -> Self {
        if self.start_refusal(id) is None {
            self.with_status(id, StatusView::Starting)
        } else {
            self
        }
    }

    /// The outcome of a start routine (a timeout counts as a failure).
    pub open spec fn finish_start(self, id: Seq<char>, outcome: Result<(), Seq<char>>) -> Self {
        self.with_status(
            id,
            match outcome {
                Ok(()) => StatusView::Started,
                Err(c) => StatusView::FailedToStart(c),
            },
        )
    }

    pub open spec fn stop_decision(self, id: Seq<char>) -> StopDecision {
        if !self.manages(id) {
            StopDecision::NotManaged
        } else if self.status_of(id) is Started {
            StopDecision::Proceed
        } else {
            StopDecision::NotStarted
        }
    }

    /// A stop request: only a `Started` service moves, to `Stopping`.
    pub open spec fn begin_stop(self, id: Seq<char>) -> Self {
        if self.stop_decision(id) == StopDecision::Proceed {
            self.with_status(id, StatusView::Stopping)
        } else {
            self
        }
    }

    /// The outcome of a stop routine (a timeout counts as a failure).
    pub open spec fn finish_stop(self, id: Seq<char>, outcome: Result<(), Seq<char>>) -> Self {
        self.with_status(
            id,
            match outcome {
                Ok(()) => StatusView::Stopped,
                Err(c) => StatusView::FailedToStop(c),
            },
        )
    }

    /// Background work was spawned for a service: its handle is tracked under the id.
    pub open spec fn track_task(self, id: Seq<char>, task: B) -> Self {
        ManagerView {
            tasks: if self.has_task(id) {
                self.tasks.update(self.task_index(id), (id, task))
            } else {
                self.tasks.push((id, task))
            },
            ..self
        }
    }

    /// The background work of a service ended, successfully or not: the service
    /// is marked as failed, and its handle is released if the policy says so.
    pub open spec fn task_ended(self, id: Seq<char>, outcome: Result<(), Seq<char>>) -> Self {
        let marked = self.with_status(id, StatusView::RuntimeError(crash_cause(outcome)));
        if self.release_finished_tasks && self.has_task(id) {
            ManagerView { tasks: marked.tasks.remove(self.task_index(id)), ..marked }
        } else {
            marked
        }
    }

    /// Every registered service is `Started`.
    pub open spec fn healthy(self) -> bool {
        forall|i: int| 0 <= i < self.entries.len() ==> #[trigger] self.entries[i].status is Started
    }
}

/// The report group of a service: failed essential, failed optional,
/// essential, optional (the last two `Started` or `Stopped`), then any other.
pub open spec fn report_group(status: StatusView, priority: Priority) -> int {
    if status.is_failed() {
        if priority == Priority::Essential { 0 } else { 1 }
    } else if status.is_settled() {
        if priority == Priority::Essential { 2 } else { 3 }
    } else {
        4
    }
}

/// The report line of one service: ` - name: status`.
pub open spec fn report_line(name: Seq<char>, status: StatusView) -> Seq<char> {
    " - "@ + name + ": "@ + status.text() + "\n"@
}

/// The lines of the services of one report group, in registration order.
pub open spec fn group_text<H>(entries: Seq<EntryView<H>>, group: int) -> Seq<char>
    decreases entries.len(),
{
    if entries.len() == 0 {
        Seq::empty()
    } else {
        let e = entries.last();
        group_text(entries.drop_last(), group) + if report_group(e.status, e.priority) == group {
            report_line(e.name, e.status)
        } else {
            Seq::empty()
        }
    }
}

/// A report section: its header line and its lines, or nothing when it has no lines.
pub open spec fn section(header: Seq<char>, body: Seq<char>) -> Seq<char> {
    if body.len() == 0 {
        Seq::empty()
    } else {
        header + body
    }
}

/// The status report: the five groups in fixed order, empty ones left out.
pub open spec fn status_tree_text<H>(entries: Seq<EntryView<H>>) -> Seq<char> {
    section("- Failed essential services:\n"@, group_text(entries, 0)) + section(
        "- Failed optional services:\n"@,
        group_text(entries, 1),
    ) + section("- Essential services:\n"@, group_text(entries, 2)) + section(
        "- Optional services:\n"@,
        group_text(entries, 3),
    ) + section("- Other services:\n"@, group_text(entries, 4))
}

/// How one service is named in the list of services: `name (id)`.
pub open spec fn service_label(name: Seq<char>, id: Seq<char>) -> Seq<char> {
    name + " ("@ + id + ")"@
}

/// The labels of the services, in registration order, separated by `, `.
pub open spec fn service_list<H>(entries: Seq<EntryView<H>>) -> Seq<char>
    decreases entries.len(),
{
    if entries.len() == 0 {
        Seq::empty()
    } else if entries.len() == 1 {
        service_label(entries[0].name, entries[0].id)
    } else {
        service_list(entries.drop_last()) + ", "@ + service_label(
            entries.last().name,
            entries.last().id,
        )
    }
}

/// The one-line description of the registry: `Services: None` when it is
/// empty, else `Services: ` and the list of services.
pub open spec fn services_text<H>(entries: Seq<EntryView<H>>) -> Seq<char> {
    if entries.len() == 0 {
        "Services: None"@
    } else {
        "Services: "@ + service_list(entries)
    }
}

/// Collects services, ignoring any whose id is already registered, and
/// seals them into a [`ServiceManager`].
pub struct ServiceManagerBuilder<H> {
    services: Vec<ServiceEntry<H>>,
    timeout_secs: u64,
    release_finished_tasks: bool,
}

/// The abstract value of a builder.
pub struct BuilderView<H> {
    pub entries: Seq<EntryView<H>>,
    pub timeout_secs: u64,
    pub release_finished_tasks: bool,
}

/// The view of a freshly registered service: it starts out `Stopped`.
pub open spec fn fresh_entry<H>(e: ServiceEntry<H>) -> EntryView<H> {
    EntryView {
        id: e.info.id@,
        name: e.info.name@,
        priority: e.info.priority,
        status: StatusView::Stopped,
        handle: e.handle,
    }
}

impl<H> View for ServiceManagerBuilder<H> {
    type V = BuilderView<H>;

    closed spec fn view(&self) -> BuilderView<H> {
        BuilderView {
            entries: self.services@.map_values(|e: ServiceEntry<H>| fresh_entry(e)),
            timeout_secs: self.timeout_secs,
            release_finished_tasks: self.release_finished_tasks,
        }
    }
}

impl<H> ServiceManagerBuilder<H> {
    #[verifier::type_invariant]
    closed spec fn inv(&self) -> bool {
        ids_unique(self@.entries)
    }

    /// An empty registry with the default timeout, releasing the handle of
    /// background work once it has ended.
    pub fn new() -> (r: Self)
        ensures
            r@.entries.len() == 0,
            r@.timeout_secs == DEFAULT_TIMEOUT_SECS,
            r@.release_finished_tasks,
    {
        let r = ServiceManagerBuilder {
            services: Vec::new(),
            timeout_secs: DEFAULT_TIMEOUT_SECS,
            release_finished_tasks: true,
        };
        assert(r@.entries =~= Seq::<EntryView<H>>::empty());
        r
    }

    /// Registers a service unless one with the same id is already present; the
    /// one registered first is kept.
    pub fn with_service(self, info: ServiceInfo, handle: H) -> (r: Self)
        ensures
            r@.entries == register(self@.entries, fresh_entry(ServiceEntry { info, handle })),
            r@.timeout_secs == self@.timeout_secs,
            r@.release_finished_tasks == self@.release_finished_tasks,
    {
        proof {
            use_type_invariant(&self);
        }
        let ghost new_entry = fresh_entry(ServiceEntry { info, handle });
        let mut found = false;
        let mut i: usize = 0;
        while i < self.services.len()
            invariant
                i <= self.services@.len(),
                self@.entries.len() == self.services@.len(),
                self@.entries == self.services@.map_values(|e: ServiceEntry<H>| fresh_entry(e)),
                found == (exists|k: int| 0 <= k < i && #[trigger] self@.entries[k].id == info.id@),
            decreases self.services@.len() - i,
        {
            assert(self@.entries[i as int].id == self.services@[i as int].info.id@);
            if self.services[i].info.id == info.id {
                found = true;
            }
            i = i + 1;
        }
        if found {
            return self;
        }
        assert(!ids_contain(self@.entries, info.id@));
        let ServiceManagerBuilder { services, timeout_secs, release_finished_tasks } = self;
        let mut services = services;
        services.push(ServiceEntry { info, handle });
        proof {
            let grown = self@.entries.push(new_entry);
            assert(services@.map_values(|e: ServiceEntry<H>| fresh_entry(e)) =~= grown);
            assert forall|a: int, b: int|
                0 <= a < grown.len() && 0 <= b < grown.len() && a != b implies #[trigger] grown[a].id
                != #[trigger] grown[b].id by {
                if a == grown.len() - 1 {
                    assert(self@.entries[b].id == grown[b].id);
                } else if b == grown.len() - 1 {
                    assert(self@.entries[a].id == grown[a].id);
                }
            }
        }
        let r = ServiceManagerBuilder { services, timeout_secs, release_finished_tasks };
        r
    }

    /// The number of services registered so far.
    pub fn service_count(&self) -> (r: usize)
        ensures
            r == self@.entries.len(),
    {
        self.services.len()
    }

    /// Sets the time in seconds that start and stop routines are given.
    pub fn with_timeout(self, secs: u64) -> (r: Self)
        ensures
            r@.entries == self@.entries,
            r@.timeout_secs == secs,
            r@.release_finished_tasks == self@.release_finished_tasks,
    {
        proof {
            use_type_invariant(&self);
        }
        let ServiceManagerBuilder { services, timeout_secs: _, release_finished_tasks } = self;
        ServiceManagerBuilder { services, timeout_secs: secs, release_finished_tasks }
    }

    /// Chooses whether the handle of a service's background work is released
    /// once that work ends (`true`), or stays tracked, so that the service
    /// cannot be started again by this orchestrator (`false`).
    pub fn release_finished_tasks(self, release: bool) -> (r: Self)
        ensures
            r@.entries == self@.entries,
            r@.timeout_secs == self@.timeout_secs,
            r@.release_finished_tasks == release,
    {
        proof {
            use_type_invariant(&self);
        }
        let ServiceManagerBuilder { services, timeout_secs, release_finished_tasks: _ } = self;
        ServiceManagerBuilder { services, timeout_secs, release_finished_tasks: release }
    }

    /// Seals the registry: every service starts out `Stopped` and no
    /// background work is tracked.
    pub fn build<B>(self) -> (r: ServiceManager<H, B>)
        ensures
            r.wf(),
            r@.entries == self@.entries,
            r@.tasks.len() == 0,
            r@.timeout_secs == self@.timeout_secs,
            r@.release_finished_tasks == self@.release_finished_tasks,
    {
        proof {
            use_type_invariant(&self);
        }
        let ghost entries = self@.entries;
        let ServiceManagerBuilder { services, timeout_secs, release_finished_tasks } = self;
        let mut statuses: Vec<Status> = Vec::new();
        let mut i: usize = 0;
        while i < services.len()
            invariant
                i <= services@.len(),
                statuses@.len() == i,
                forall|k: int| 0 <= k < i ==> #[trigger] statuses@[k]@ is Stopped,
            decreases services@.len() - i,
        {
            statuses.push(Status::Stopped);
            i = i + 1;
        }
        let ghost tasks: Seq<(Seq<char>, B)> = Seq::empty();
        let r = ServiceManager {
            services,
            statuses,
            background_tasks: Vec::new(),
            timeout_secs,
            release_finished_tasks,
        };
        assert(r@.entries =~= entries);
        assert(r@.tasks =~= tasks);
        r
    }
}

/// The orchestrator's state: the registered services in registration order,
/// the status of each, and the handles of the background work it tracks.
pub struct ServiceManager<H, B> {
    services: Vec<ServiceEntry<H>>,
    statuses: Vec<Status>,
    background_tasks: Vec<(String, B)>,
    timeout_secs: u64,
    release_finished_tasks: bool,
}

/// The text form of an outcome as a sequence of characters.
pub open spec fn outcome_view(o: Result<(), String>) -> Result<(), Seq<char>> {
    match o {
        Ok(()) => Ok(()),
        Err(c) => Err(c@),
    }
}

impl<H, B> View for ServiceManager<H, B> {
    type V = ManagerView<H, B>;

    closed spec fn view(&self) -> ManagerView<H, B> {
        ManagerView {
            entries: Seq::new(
                self.services@.len(),
                |i: int|
                    EntryView {
                        id: self.services@[i].info.id@,
                        name: self.services@[i].info.name@,
                        priority: self.services@[i].info.priority,
                        status: self.statuses@[i]@,
                        handle: self.services@[i].handle,
                    },
            ),
            tasks: self.background_tasks@.map_values(|p: (String, B)| (p.0@, p.1)),
            timeout_secs: self.timeout_secs,
            release_finished_tasks: self.release_finished_tasks,
        }
    }
}

/// With unique ids, the position of an id is the one entry that carries it.
proof fn lemma_index_of<H, B>(m: ManagerView<H, B>, i: int)
    requires
        ids_unique(m.entries),
        0 <= i < m.entries.len(),
    ensures
        m.manages(m.entries[i].id),
        m.index_of(m.entries[i].id) == i,
{
    assert(m.entries[i].id == m.entries[i].id);
}

/// With unique keys, the position of a tracked id is the one pair that carries it.
proof fn lemma_task_index<H, B>(m: ManagerView<H, B>, j: int)
    requires
        keys_unique(m.tasks),
        0 <= j < m.tasks.len(),
    ensures
        m.has_task(m.tasks[j].0),
        m.task_index(m.tasks[j].0) == j,
{
    assert(m.tasks[j].0 == m.tasks[j].0);
}

impl<H, B> ServiceManager<H, B> {
    /// The orchestrator's internal consistency: one status per service,
    /// unique service ids, and at most one tracked task per id.
    pub closed spec fn wf(&self) -> bool {
        &&& self.services@.len() == self.statuses@.len()
        &&& ids_unique(self@.entries)
        &&& keys_unique(self@.tasks)
    }

    /// An empty registry to fill before sealing.
    pub fn builder() -> (r: ServiceManagerBuilder<H>)
        ensures
            r@.entries.len() == 0,
            r@.timeout_secs == DEFAULT_TIMEOUT_SECS,
            r@.release_finished_tasks,
    {
        ServiceManagerBuilder::new()
    }

    /// The position of the service with the given id, if it is registered.
    fn find(&self, id: &String) -> (r: Option<usize>)
        requires
            self.wf(),
        ensures
            match r {
                Some(i) => i < self@.entries.len() && self@.entries[i as int].id == id@
                    && self@.index_of(id@) == i && self@.manages(id@),
                None => !self@.manages(id@),
            },
    {
        let mut i: usize = 0;
        while i < self.services.len()
            invariant
                self.wf(),
                i <= self.services@.len(),
                self.services@.len() == self@.entries.len(),
                forall|k: int| 0 <= k < i ==> #[trigger] self@.entries[k].id != id@,
            decreases self.services@.len() - i,
        {
            assert(self@.entries[i as int].id == self.services@[i as int].info.id@);
            if self.services[i].info.id == *id {
                proof {
                    lemma_index_of(self@, i as int);
                }
                return Some(i);
            }
            i = i + 1;
        }
        None
    }

    /// The position of the tracked background work of the given id, if any.
    fn find_task(&self, id: &String) -> (r: Option<usize>)
        requires
            self.wf(),
        ensures
            match r {
                Some(j) => j < self@.tasks.len() && self@.tasks[j as int].0 == id@
                    && self@.task_index(id@) == j && self@.has_task(id@),
                None => !self@.has_task(id@),
            },
    {
        let mut j: usize = 0;
        while j < self.background_tasks.len()
            invariant
                self.wf(),
                j <= self.background_tasks@.len(),
                self.background_tasks@.len() == self@.tasks.len(),
                forall|k: int| 0 <= k < j ==> #[trigger] self@.tasks[k].0 != id@,
            decreases self.background_tasks@.len() - j,
        {
            assert(self@.tasks[j as int].0 == self.background_tasks@[j as int].0@);
            if self.background_tasks[j].0 == *id {
                proof {
                    lemma_task_index(self@, j as int);
                }
                return Some(j);
            }
            j = j + 1;
        }
        None
    }

    /// Replaces the status of the service at position `i`.
    fn set_status(&mut self, i: usize, s: Status)
        requires
            old(self).wf(),
            i < old(self)@.entries.len(),
        ensures
            final(self).wf(),
            final(self)@ == old(self)@.with_status(
                old(self)@.entries[i as int].id,
                s@,
            ),
    {
        proof {
            lemma_index_of(self@, i as int);
        }
        let ghost before = self@;
        let ghost sv = s@;
        self.statuses.set(i, s);
        proof {
            let expected = before.with_status(before.entries[i as int].id, sv);
            assert(self@.entries =~= expected.entries);
            assert(self@.tasks =~= expected.tasks);
            assert forall|k: int| 0 <= k < self@.entries.len() implies #[trigger] self@.entries[k].id
                == before.entries[k].id by {}
        }
    }

    /// Whether a service with this id is registered.
    pub fn manages_service(&self, id: &String) -> (r: bool)
        requires
            self.wf(),
        ensures
            r == self@.manages(id@),
    {
        self.find(id).is_some()
    }

    /// The first step of starting a service: refuses an unregistered id, a
    /// service whose background work is still tracked and a service that is
    /// not `Stopped`, leaving everything untouched; otherwise marks it
    /// `Starting`, after which its start routine is to be run.
    pub fn begin_start(&mut self, id: &String) -> (r: Result<(), StartupError>)
        requires
            old(self).wf(),
        ensures
            final(self).wf(),
            final(self)@ == old(self)@.begin_start(id@),
            r is Err ==> final(self)@ == old(self)@,
            r is Ok ==> final(self)@.status_of(id@) is Starting,
            match r {
                Ok(()) => old(self)@.start_refusal(id@) is None,
                Err(e) => old(self)@.start_refusal(id@) == Some(e@),
            },
    {
        match self.find(id) {
            None => Err(StartupError::ServiceNotManaged(id.clone())),
            Some(i) => {
                if self.find_task(id).is_some() {
                    Err(StartupError::BackgroundTaskAlreadyRunning(id.clone()))
                } else if !self.statuses[i].is_stopped() {
                    Err(StartupError::ServiceNotStopped(id.clone()))
                } else {
                    proof {
                        lemma_with_status(self@, id@, StatusView::Starting);
                    }
                    self.set_status(i, Status::Starting);
                    Ok(())
                }
            }
        }
    }

    /// Records the outcome of a service's start routine: `Started` on success;
    /// on failure or timeout `FailedToStart` with the cause, reported as
    /// `FailedToStartService`. An unregistered id changes nothing.
    pub fn finish_start(&mut self, id: &String, outcome: Result<(), String>) -> (r: Result<
        (),
        StartupError,
    >)
        requires
            old(self).wf(),
        ensures
            final(self).wf(),
            final(self)@ == old(self)@.finish_start(id@, outcome_view(outcome)),
            match r {
                Ok(()) => outcome is Ok,
                Err(e) => outcome is Err && e@ == StartupErrorView::FailedToStartService(id@),
            },
    {
        match self.find(id) {
            None => match outcome {
                Ok(()) => Ok(()),
                Err(_) => Err(StartupError::FailedToStartService(id.clone())),
            },
            Some(i) => match outcome {
                Ok(()) => {
                    self.set_status(i, Status::Started);
                    Ok(())
                },
                Err(cause) => {
                    self.set_status(i, Status::FailedToStart(cause));
                    Err(StartupError::FailedToStartService(id.clone()))
                },
            },
        }
    }

    /// The first step of stopping a service: only a registered, `Started`
    /// service moves, to `Stopping`, after which its stop routine is to be
    /// run; in every other case nothing changes.
    pub fn begin_stop(&mut self, id: &String) -> (r: StopDecision)
        requires
            old(self).wf(),
        ensures
            final(self).wf(),
            final(self)@ == old(self)@.begin_stop(id@),
            r == old(self)@.stop_decision(id@),
            r != StopDecision::Proceed ==> final(self)@ == old(self)@,
            r == StopDecision::Proceed ==> final(self)@.status_of(id@) is Stopping,
    {
        match self.find(id) {
            None => StopDecision::NotManaged,
            Some(i) => {
                if self.statuses[i].is_started() {
                    proof {
                        lemma_with_status(self@, id@, StatusView::Stopping);
                    }
                    self.set_status(i, Status::Stopping);
                    StopDecision::Proceed
                } else {
                    StopDecision::NotStarted
                }
            },
        }
    }

    /// Records the outcome of a service's stop routine: `Stopped` on success,
    /// `FailedToStop` with the cause on failure or timeout.
    pub fn finish_stop(&mut self, id: &String, outcome: Result<(), String>)
        requires
            old(self).wf(),
        ensures
            final(self).wf(),
            final(self)@ == old(self)@.finish_stop(id@, outcome_view(outcome)),
    {
        if let Some(i) = self.find(id) {
            match outcome {
                Ok(()) => self.set_status(i, Status::Stopped),
                Err(cause) => self.set_status(i, Status::FailedToStop(cause)),
            }
        }
    }

    /// Tracks the handle of the background work spawned for a service,
    /// replacing any handle already tracked under the id.
    pub fn track_task(&mut self, id: &String, task: B)
        requires
            old(self).wf(),
        ensures
            final(self).wf(),
            final(self)@ == old(self)@.track_task(id@, task),
    {
        let ghost before = self@;
        match self.find_task(id) {
            Some(j) => {
                self.background_tasks.set(j, (id.clone(), task));
                proof {
                    let expected = before.track_task(id@, task);
                    assert(self@.tasks =~= expected.tasks);
                    assert(self@.entries =~= expected.entries);
                    assert forall|a: int| 0 <= a < self@.tasks.len() && a != j implies #[trigger] self@.tasks[a].0
                        == before.tasks[a].0 by {}
                }
            },
            None => {
                self.background_tasks.push((id.clone(), task));
                proof {
                    let expected = before.track_task(id@, task);
                    assert(self@.tasks =~= expected.tasks);
                    assert(self@.entries =~= expected.entries);
                    assert forall|a: int| 0 <= a < before.tasks.len() implies #[trigger] self@.tasks[a].0
                        == before.tasks[a].0 && before.tasks[a].0 != id@ by {}
                }
            },
        }
    }

    /// Records that the background work of a service has ended: ending at all
    /// is abnormal, so the service becomes `RuntimeError` whatever the outcome.
    /// If the orchestrator releases finished work, the tracked handle is
    /// removed and handed back.
    pub fn task_ended(&mut self, id: &String, outcome: Result<(), String>) -> (r: Option<B>)
        requires
            old(self).wf(),
        ensures
            final(self).wf(),
            final(self)@ == old(self)@.task_ended(id@, outcome_view(outcome)),
            match r {
                Some(task) => old(self)@.release_finished_tasks && old(self)@.has_task(id@)
                    && task == old(self)@.tasks[old(self)@.task_index(id@)].1,
                None => !(old(self)@.release_finished_tasks && old(self)@.has_task(id@)),
            },
    {
        let ghost before = self@;
        let cause = crash_cause_text(&outcome);
        if let Some(i) = self.find(id) {
            self.set_status(i, Status::RuntimeError(cause));
        }
        let ghost marked = self@;
        assert(marked == before.with_status(id@, StatusView::RuntimeError(crash_cause(outcome_view(outcome)))));
        if self.release_finished_tasks {
            if let Some(j) = self.find_task(id) {
                let (_, task) = self.background_tasks.remove(j);
                proof {
                    let expected = before.task_ended(id@, outcome_view(outcome));
                    assert(self@.tasks =~= expected.tasks);
                    assert(self@.entries =~= expected.entries);
                    assert forall|a: int, b: int|
                        0 <= a < self@.tasks.len() && 0 <= b < self@.tasks.len() && a != b implies #[trigger] self@.tasks[a].0
                        != #[trigger] self@.tasks[b].0 by {
                        let a0 = if a < j { a } else { a + 1 };
                        let b0 = if b < j { b } else { b + 1 };
                        assert(self@.tasks[a].0 == marked.tasks[a0].0);
                        assert(self@.tasks[b].0 == marked.tasks[b0].0);
                    }
                }
                return Some(task);
            }
        }
        None
    }

    /// `Healthy` exactly when every registered service is `Started`.
    pub fn overall_status(&self) -> (r: OverallStatus)
        requires
            self.wf(),
        ensures
            (r == OverallStatus::Healthy) == self@.healthy(),
    {
        let mut i: usize = 0;
        while i < self.statuses.len()
            invariant
                self.wf(),
                i <= self.statuses@.len(),
                self.statuses@.len() == self@.entries.len(),
                forall|k: int| 0 <= k < i ==> #[trigger] self@.entries[k].status is Started,
            decreases self.statuses@.len() - i,
        {
            assert(self@.entries[i as int].status == self.statuses@[i as int]@);
            if !self.statuses[i].is_started() {
                return OverallStatus::Unhealthy;
            }
            i = i + 1;
        }
        OverallStatus::Healthy
    }

    /// The status report of all registered services, grouped as
    /// [`status_tree_text`] describes.
    pub fn status_tree(&self) -> (r: String)
        requires
            self.wf(),
        ensures
            r@ == status_tree_text(self@.entries),
    {
        let ghost entries = self@.entries;
        let mut failed_essentials = String::new();
        let mut failed_optionals = String::new();
        let mut essentials = String::new();
        let mut optionals = String::new();
        let mut others = String::new();
        let mut i: usize = 0;
        while i < self.services.len()
            invariant
                self.wf(),
                entries == self@.entries,
                i <= entries.len(),
                self.services@.len() == entries.len(),
                failed_essentials@ == group_text(entries.take(i as int), 0),
                failed_optionals@ == group_text(entries.take(i as int), 1),
                essentials@ == group_text(entries.take(i as int), 2),
                optionals@ == group_text(entries.take(i as int), 3),
                others@ == group_text(entries.take(i as int), 4),
            decreases entries.len() - i,
        {
            let entry = &self.services[i];
            let status = &self.statuses[i];
            let ghost e = entries[i as int];
            assert(e.name == entry.info.name@ && e.status == status@ && e.priority == entry.info.priority);
            let mut line = String::from_str(" - ");
            line.append(entry.info.name.as_str());
            line.append(": ");
            let text = status.to_text();
            line.append(text.as_str());
            line.append("\n");
            assert(line@ =~= report_line(e.name, e.status));
            proof {
                assert(entries.take(i + 1).drop_last() =~= entries.take(i as int));
                assert(entries.take(i + 1).last() == e);
            }
            if status.is_failed() {
                if entry.info.priority == Priority::Essential {
                    failed_essentials.append(line.as_str());
                } else {
                    failed_optionals.append(line.as_str());
                }
            } else if status.is_settled() {
                if entry.info.priority == Priority::Essential {
                    essentials.append(line.as_str());
                } else {
                    optionals.append(line.as_str());
                }
            } else {
                others.append(line.as_str());
            }
            proof {
                assert(failed_essentials@ =~= group_text(entries.take(i + 1), 0));
                assert(failed_optionals@ =~= group_text(entries.take(i + 1), 1));
                assert(essentials@ =~= group_text(entries.take(i + 1), 2));
                assert(optionals@ =~= group_text(entries.take(i + 1), 3));
                assert(others@ =~= group_text(entries.take(i + 1), 4));
            }
            i = i + 1;
        }
        assert(entries.take(entries.len() as int) =~= entries);
        let mut report = String::new();
        append_section(&mut report, "- Failed essential services:\n", &failed_essentials);
        append_section(&mut report, "- Failed optional services:\n", &failed_optionals);
        append_section(&mut report, "- Essential services:\n", &essentials);
        append_section(&mut report, "- Optional services:\n", &optionals);
        append_section(&mut report, "- Other services:\n", &others);
        assert(report@ =~= status_tree_text(entries));
        report
    }

    /// The one-line description of the registry, as [`services_text`] gives it.
    pub fn to_text(&self) -> (r: String)
        requires
            self.wf(),
        ensures
            r@ == services_text(self@.entries),
    {
        let ghost entries = self@.entries;
        if self.services.len() == 0 {
            return String::from_str("Services: None");
        }
        let mut out = String::from_str("Services: ");
        let mut i: usize = 0;
        assert(out@ =~= "Services: "@ + service_list(entries.take(0)));
        while i < self.services.len()
            invariant
                self.wf(),
                entries == self@.entries,
                i <= entries.len(),
                self.services@.len() == entries.len(),
                out@ == "Services: "@ + service_list(entries.take(i as int)),
            decreases entries.len() - i,
        {
            let entry = &self.services[i];
            assert(entries[i as int].name == entry.info.name@ && entries[i as int].id == entry.info.id@);
            let ghost before = out@;
            if i > 0 {
                out.append(", ");
            }
            out.append(entry.info.name.as_str());
            out.append(" (");
            out.append(entry.info.id.as_str());
            out.append(")");
            proof {
                let next = entries.take(i + 1);
                assert(next.drop_last() =~= entries.take(i as int));
                assert(next.last() == entries[i as int]);
                if i == 0 {
                    assert(next[0] == entries[0]);
                }
                assert(out@ =~= "Services: "@ + service_list(next));
            }
            i = i + 1;
        }
        assert(entries.take(entries.len() as int) =~= entries);
        out
    }

    /// The number of registered services.
    pub fn service_count(&self) -> (r: usize)
        requires
            self.wf(),
        ensures
            r == self@.entries.len(),
    {
        self.services.len()
    }

    /// The registered service at position `i`, in registration order.
    pub fn service(&self, i: usize) -> (r: &ServiceEntry<H>)
        requires
            self.wf(),
            i < self@.entries.len(),
        ensures
            r.info.id@ == self@.entries[i as int].id,
            r.info.name@ == self@.entries[i as int].name,
            r.info.priority == self@.entries[i as int].priority,
            r.handle == self@.entries[i as int].handle,
    {
        &self.services[i]
    }

    /// The status of the registered service at position `i`.
    pub fn status(&self, i: usize) -> (r: &Status)
        requires
            self.wf(),
            i < self@.entries.len(),
        ensures
            r@ == self@.entries[i as int].status,
    {
        &self.statuses[i]
    }

    /// The status of the service with the given id, if it is registered.
    pub fn status_of(&self, id: &String) -> (r: Option<&Status>)
        requires
            self.wf(),
        ensures
            match r {
                Some(s) => self@.manages(id@) && s@ == self@.status_of(id@),
                None => !self@.manages(id@),
            },
    {
        match self.find(id) {
            Some(i) => Some(&self.statuses[i]),
            None => None,
        }
    }

    /// Whether background work of the service with the given id is tracked.
    pub fn has_background_task(&self, id: &String) -> (r: bool)
        requires
            self.wf(),
        ensures
            r == self@.has_task(id@),
    {
        self.find_task(id).is_some()
    }

    /// The time in seconds that start and stop routines are given.
    pub fn timeout_secs(&self) -> (r: u64)
        ensures
            r == self@.timeout_secs,
    {
        self.timeout_secs
    }
}

/// Appends a report section to `out`.
fn append_section(out: &mut String, header: &str, body: &String)
    ensures
        final(out)@ == old(out)@ + section(header@, body@),
{
    if !body.as_str().is_empty() {
        out.append(header);
        out.append(body.as_str());
        assert(final(out)@ =~= old(out)@ + (header@ + body@));
    } else {
        assert(old(out)@ + section(header@, body@) =~= old(out)@);
    }
}

/// The cause recorded when background work ends, as text.
fn crash_cause_text(outcome: &Result<(), String>) -> (r: String)
    ensures
        r@ == crash_cause(outcome_view(*outcome)),
{
    match outcome {
        Ok(()) => String::from_str("Background task ended unexpectedly!"),
        Err(e) => String::from_str("Background task ended with error: ").concat(e.as_str()),
    }
}

/// Replacing one status keeps every id, the tracked tasks and the settings;
/// the changed service then reads the new status.
proof fn lemma_with_status<H, B>(m: ManagerView<H, B>, id: Seq<char>, s: StatusView)
    requires
        ids_unique(m.entries),
    ensures
        m.with_status(id, s).entries.len() == m.entries.len(),
        forall|k: int|
            0 <= k < m.entries.len() ==> #[trigger] m.with_status(id, s).entries[k].id
                == m.entries[k].id,
        ids_unique(m.with_status(id, s).entries),
        m.with_status(id, s).tasks == m.tasks,
        m.with_status(id, s).release_finished_tasks == m.release_finished_tasks,
        m.with_status(id, s).manages(id) == m.manages(id),
        m.manages(id) ==> m.with_status(id, s).index_of(id) == m.index_of(id),
        m.manages(id) ==> m.with_status(id, s).status_of(id) == s,
{
    let n = m.with_status(id, s);
    if m.manages(id) {
        let i = m.index_of(id);
        assert(n.entries[i].id == id);
        assert(ids_unique(n.entries)) by {
            assert forall|a: int, b: int|
                0 <= a < n.entries.len() && 0 <= b < n.entries.len() && a != b implies #[trigger] n.entries[a].id
                != #[trigger] n.entries[b].id by {
                assert(n.entries[a].id == m.entries[a].id);
                assert(n.entries[b].id == m.entries[b].id);
            }
        }
        lemma_index_of(n, i);
        lemma_index_of(m, i);
    }
}

/// A well-formed orchestrator has unique service ids and at most one
/// tracked task per id, which is what the laws below ask of its view.
pub proof fn lemma_valid_view<H, B>(m: &ServiceManager<H, B>)
    requires
        m.wf(),
    ensures
        ids_unique(m@.entries),
        keys_unique(m@.tasks),
{
}

/// Registering a service under an id that is already taken changes nothing:
/// after two registrations with one id the registry holds exactly one entry
/// for it, the first one, and ids stay unique.
pub proof fn lemma_duplicate_id_keeps_first<H>(
    entries: Seq<EntryView<H>>,
    first: EntryView<H>,
    second: EntryView<H>,
)
    requires
        ids_unique(entries),
        first.id == second.id,
    ensures
        register(register(entries, first), second) == register(entries, first),
        ids_contain(register(register(entries, first), second), first.id),
        ids_unique(register(register(entries, first), second)),
        !ids_contain(entries, first.id) ==> register(register(entries, first), second).last()
            == first,
        forall|i: int, j: int|
            0 <= i < register(register(entries, first), second).len() && 0 <= j < register(
                register(entries, first),
                second,
            ).len() && #[trigger] register(register(entries, first), second)[i].id == first.id
                && #[trigger] register(register(entries, first), second)[j].id == first.id ==> i
                == j,
{
    let once = register(entries, first);
    if !ids_contain(entries, first.id) {
        assert(once[once.len() - 1].id == first.id);
        assert forall|a: int, b: int|
            0 <= a < once.len() && 0 <= b < once.len() && a != b implies #[trigger] once[a].id
            != #[trigger] once[b].id by {
            if a == once.len() - 1 {
                assert(once[b] == entries[b]);
            } else if b == once.len() - 1 {
                assert(once[a] == entries[a]);
            }
        }
    }
    assert(ids_contain(once, second.id));
}

/// When a started service's background work ends, successfully or not, the
/// service is left in `RuntimeError` and is not started again implicitly: a
/// new start request is refused. With finished work released, the refusal
/// is `ServiceNotStopped`; with it kept, `BackgroundTaskAlreadyRunning`.
pub proof fn lemma_crash_is_not_recovered<H, B>(
    m: ManagerView<H, B>,
    id: Seq<char>,
    task: B,
    outcome: Result<(), Seq<char>>,
)
    requires
        ids_unique(m.entries),
        keys_unique(m.tasks),
        m.start_refusal(id) is None,
    ensures
        ({
            let running = m.begin_start(id).finish_start(id, Ok(())).track_task(id, task);
            let crashed = running.task_ended(id, outcome);
            &&& running.status_of(id) is Started
            &&& running.has_task(id)
            &&& crashed.status_of(id) == StatusView::RuntimeError(crash_cause(outcome))
            &&& crashed.start_refusal(id) is Some
            &&& m.release_finished_tasks ==> crashed.start_refusal(id) == Some(
                StartupErrorView::ServiceNotStopped(id),
            )
            &&& !m.release_finished_tasks ==> crashed.start_refusal(id) == Some(
                StartupErrorView::BackgroundTaskAlreadyRunning(id),
            )
        }),
{
    let starting = m.begin_start(id);
    lemma_with_status(m, id, StatusView::Starting);
    let started = starting.finish_start(id, Ok(()));
    lemma_with_status(starting, id, StatusView::Started);
    let running = started.track_task(id, task);
    assert(!started.has_task(id));
    assert(running.tasks == started.tasks.push((id, task)));
    assert(running.tasks[running.tasks.len() - 1].0 == id);
    assert(running.has_task(id));
    assert(running.status_of(id) == started.status_of(id));
    let cause = StatusView::RuntimeError(crash_cause(outcome));
    let marked = running.with_status(id, cause);
    lemma_with_status(running, id, cause);
    let crashed = running.task_ended(id, outcome);
    assert(crashed.entries == marked.entries);
    assert(crashed.status_of(id) == cause);
    assert(crashed.manages(id));
    if m.release_finished_tasks {
        let j = running.task_index(id);
        assert(j == running.tasks.len() - 1) by {
            if j != running.tasks.len() - 1 {
                assert(started.tasks[j].0 == id);
            }
        }
        assert(crashed.tasks =~= started.tasks);
        assert(!crashed.has_task(id));
    } else {
        assert(crashed.tasks == running.tasks);
        assert(crashed.has_task(id));
    }
}

/// Moving any one registered service to a status other than `Started` makes
/// the whole set unhealthy.
pub proof fn lemma_one_unstarted_is_unhealthy<H, B>(
    m: ManagerView<H, B>,
    id: Seq<char>,
    s: StatusView,
)
    requires
        ids_unique(m.entries),
        m.manages(id),
        !(s is Started),
    ensures
        !m.with_status(id, s).healthy(),
{
    lemma_with_status(m, id, s);
    let i = m.index_of(id);
    assert(!(m.with_status(id, s).entries[i].status is Started));
}

} // verus!
