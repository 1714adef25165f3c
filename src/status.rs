use vstd::prelude::*;

verus! {

/// How important a service is; used only to group services in reports.
#[derive(Clone, Copy, Debug, PartialEq, Eq, Structural)]
pub enum Priority {
    Essential,
    Optional,
}

/// The lifecycle state of one service.
///
/// The failure states carry the cause as text and are never left
/// automatically.
#[derive(Clone, Debug)]
pub enum Status {
    Stopped,
    Starting,
    Started,
    Stopping,
    FailedToStart(String),
    FailedToStop(String),
    RuntimeError(String),
}

/// The health of the whole set of services.
#[derive(Clone, Copy, Debug, PartialEq, Eq, Structural)]
pub enum OverallStatus {
    Healthy,
    Unhealthy,
}

/// Why a start request was refused or failed; each carries the service id.
#[derive(Clone, Debug)]
pub enum StartupError {
    ServiceNotManaged(String),
    BackgroundTaskAlreadyRunning(String),
    ServiceNotStopped(String),
    FailedToStartService(String),
}

/// The abstract value of a status: the same states, causes as character sequences.
pub enum StatusView {
    Stopped,
    Starting,
    Started,
    Stopping,
    FailedToStart(Seq<char>),
    FailedToStop(Seq<char>),
    RuntimeError(Seq<char>),
}

impl View for Status {
    type V = StatusView;

    open spec fn view(&self) -> StatusView {
        match self {
            Status::Stopped => StatusView::Stopped,
            Status::Starting => StatusView::Starting,
            Status::Started => StatusView::Started,
            Status::Stopping => StatusView::Stopping,
            Status::FailedToStart(c) => StatusView::FailedToStart(c@),
            Status::FailedToStop(c) => StatusView::FailedToStop(c@),
            Status::RuntimeError(c) => StatusView::RuntimeError(c@),
        }
    }
}

/// The abstract value of a startup error.
pub enum StartupErrorView {
    ServiceNotManaged(Seq<char>),
    BackgroundTaskAlreadyRunning(Seq<char>),
    ServiceNotStopped(Seq<char>),
    FailedToStartService(Seq<char>),
}

impl View for StartupError {
    type V = StartupErrorView;

    open spec fn view(&self) -> StartupErrorView {
        match self {
            StartupError::ServiceNotManaged(id) => StartupErrorView::ServiceNotManaged(id@),
            StartupError::BackgroundTaskAlreadyRunning(id) => StartupErrorView::BackgroundTaskAlreadyRunning(id@),
            StartupError::ServiceNotStopped(id) => StartupErrorView::ServiceNotStopped(id@),
            StartupError::FailedToStartService(id) => StartupErrorView::FailedToStartService(id@),
        }
    }
}

impl StatusView {
    /// A start, a stop or the service's own work has failed.
    pub open spec fn is_failed(self) -> bool {
        self is FailedToStart || self is FailedToStop || self is RuntimeError
    }

    /// At rest: running or cleanly stopped.
    pub open spec fn is_settled(self) -> bool {
        self is Started || self is Stopped
    }

    /// How a status reads in reports.
    pub open spec fn text(self) -> Seq<char> {
        match self {
            StatusView::Stopped => "Stopped"@,
            StatusView::Starting => "Starting"@,
            StatusView::Started => "Started"@,
            StatusView::Stopping => "Stopping"@,
            StatusView::FailedToStart(c) => "Failed to start: "@ + c,
            StatusView::FailedToStop(c) => "Failed to stop: "@ + c,
            StatusView::RuntimeError(c) => "Runtime error: "@ + c,
        }
    }
}

impl Status {
    pub fn is_failed(&self) -> (r: bool)
        ensures
            r == self@.is_failed(),
    {
        match self {
            Status::FailedToStart(_) | Status::FailedToStop(_) | Status::RuntimeError(_) => true,
            _ => false,
        }
    }

    pub fn is_settled(&self) -> (r: bool)
        ensures
            r == self@.is_settled(),
    {
        match self {
            Status::Started | Status::Stopped => true,
            _ => false,
        }
    }

    pub fn is_started(&self) -> (r: bool)
        ensures
            r == (self@ is Started),
    {
        match self {
            Status::Started => true,
            _ => false,
        }
    }

    pub fn is_stopped(&self) -> (r: bool)
        ensures
            r == (self@ is Stopped),
    {
        match self {
            Status::Stopped => true,
            _ => false,
        }
    }

    /// The status as it reads in reports.
    pub fn to_text(&self) -> (r: String)
        ensures
            r@ == self@.text(),
    {
        match self {
            Status::Stopped => String::from_str("Stopped"),
            Status::Starting => String::from_str("Starting"),
            Status::Started => String::from_str("Started"),
            Status::Stopping => String::from_str("Stopping"),
            Status::FailedToStart(c) => String::from_str("Failed to start: ").concat(c.as_str()),
            Status::FailedToStop(c) => String::from_str("Failed to stop: ").concat(c.as_str()),
            Status::RuntimeError(c) => String::from_str("Runtime error: ").concat(c.as_str()),
        }
    }
}

} // verus!
