use vstd::prelude::*;

use crate::geometry::Area;
use crate::window::WindowRef;

verus! {

/// Severity with which an error of the tiles manager is reported.
#[derive(Debug, Clone, Copy, PartialEq, Eq, Structural)]
pub enum LogLevel {
    Error,
    Warn,
    Debug,
}

/// Why an operation of the tiles manager failed.
#[derive(Debug, PartialEq, Eq)]
pub enum TilesManagerError {
    Generic,
    /// The virtual desktop service reported an error.
    VDError,
    WindowAlreadyAdded(WindowRef),
    NoWindowsInfo,
    ContainerNotFound { refresh: bool },
    WinNotManaged(WindowRef),
    NoWindow,
    MonitorNotFound(String),
    NoMonitorFound,
    NoMonitorAtPoint((i32, i32)),
    NoContainerAtPoint((i32, i32)),
    WorkspaceAlreadyCreated,
    VDContainersAlreadyCreated,
    VDContainersAlreadyActivated,
}

/// What a successful operation of the tiles manager asks for.
#[allow(inconsistent_fields)]
#[derive(Debug, PartialEq, Eq)]
pub enum TilesManagerSuccess {
    LayoutChanged,
    UpdateAndFocus { window: Option<WindowRef> },
    Queue { window: WindowRef, area: Area, topmost: Option<bool> },
    Dequeue { window: WindowRef },
    NoChange,
}

impl TilesManagerSuccess {
    pub fn queue(window: WindowRef, area: Area, topmost: Option<bool>) -> (s: Self)
        ensures
            s == (TilesManagerSuccess::Queue { window, area, topmost }),
    {
        TilesManagerSuccess::Queue { window, area, topmost }
    }

    pub fn dequeue(window: WindowRef) -> (s: Self)
        ensures
            s == (TilesManagerSuccess::Dequeue { window }),
    {
        TilesManagerSuccess::Dequeue { window }
    }
}

impl TilesManagerError {
    /// Errors at a point without container are errors, missing window
    /// information is a warning, everything else is debug information.
    pub fn get_log_level(&self) -> (l: LogLevel)
        ensures
            l == (match self {
                TilesManagerError::NoContainerAtPoint(_) => LogLevel::Error,
                TilesManagerError::NoWindowsInfo => LogLevel::Warn,
                _ => LogLevel::Debug,
            }),
    {
        match self {
            TilesManagerError::NoContainerAtPoint(_) => LogLevel::Error,
            TilesManagerError::NoWindowsInfo => LogLevel::Warn,
            _ => LogLevel::Debug,
        }
    }

    /// Only a missing container that asks for it requires a refresh.
    pub fn require_refresh(&self) -> (b: bool)
        ensures
            b == (*self == TilesManagerError::ContainerNotFound { refresh: true }),
    {
        match self {
            TilesManagerError::ContainerNotFound { refresh } => *refresh,
            _ => false,
        }
    }

    pub fn container_not_found() -> (e: Self)
        ensures
            e == (TilesManagerError::ContainerNotFound { refresh: false }),
    {
        TilesManagerError::ContainerNotFound { refresh: false }
    }

    pub fn container_not_found_refresh() -> (e: Self)
        ensures
            e == (TilesManagerError::ContainerNotFound { refresh: true }),
    {
        TilesManagerError::ContainerNotFound { refresh: true }
    }

    /// The error as its derived `Debug` writes it, through std's `format!`.
    /// Nothing is stated of the text: std does not fix the format of
    /// `Debug`.
    #[verifier::external_body]
    pub fn get_info(&self) -> String {
        format!("{:?}", self)
    }
}

} // verus!
