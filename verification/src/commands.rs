use vstd::prelude::*;

use crate::geometry::{Area, Direction};
use crate::result::{LogLevel, TilesManagerError};
use crate::tm::{IntermonitorMoveOp, IntramonitorMoveOp, WindowTileState};
use crate::window::WindowRef;

verus! {

/// How a move or resize of a window by the user ended.
#[derive(Debug, Clone, Copy)]
pub enum MoveSizeResult {
    /// The window was resized from the first area to the second.
    Resized(Area, Area),
    /// The window was dropped at a point, with the operations to apply
    /// within a monitor and across monitors.
    Moved((i32, i32), IntramonitorMoveOp, IntermonitorMoveOp),
    /// Neither.
    Unchanged,
}

/// An event about a window.
#[derive(Debug, Clone, Copy)]
pub enum WindowEvent {
    Maximized(WindowRef),
    Unmaximized(WindowRef),
    Opened(WindowRef),
    Restored(WindowRef),
    Closed(WindowRef),
    Minimized(WindowRef),
    StartMoveSize(WindowRef),
    EndMoveSize(WindowRef, MoveSizeResult),
    Focused(WindowRef),
}

/// An event about the system; virtual desktops are known by their ids.
#[derive(Debug, Clone, Copy)]
pub enum SystemEvent {
    VirtualDesktopRemoved { destroyed: u128, fallback: u128 },
    VirtualDesktopChanged { old: u128, new: u128 },
    WorkareaChanged,
    DesktopFocused { at: (i32, i32) },
    MonitorsLayoutChanged,
}

/// A command for the tiles manager.
#[derive(Debug, Clone)]
pub enum TMCommand {
    WindowEvent(WindowEvent),
    SystemEvent(SystemEvent),
    Focus(Direction),
    FocusMonitor(Direction),
    Close,
    Topmost,
    SwitchFocus,
    FocusWorkspace { id: String },
    Insert(Direction),
    /// Direction, whether to insert when there is no window that way, and
    /// the step of a floating window.
    Move(Direction, bool, u16),
    /// Direction, step of a tiled window, step of a floating window.
    Resize(Direction, u16, u16),
    Release(Option<bool>),
    /// Direction and ratio, the ratio given by the bits of an `f32`.
    Peek(Direction, u32),
    Update(bool),
    Focalize,
    HalfFocalize,
    CycleFocalized(bool),
    Invert,
    ListManagedWindows,
    QueryInfo,
    Minimize,
    Quit,
    Amplify,
    MoveToWorkspace { id: String, focus: bool },
}

/// The commands that leave the layout alone: focus changes, queries, the
/// topmost toggle, quitting, and the start of a move or resize or a focus
/// event of a window. Every other command can change it.
pub open spec fn spec_can_change_layout(c: TMCommand) -> bool {
    !(c is ListManagedWindows || c is Topmost || c is Focus || c is FocusMonitor || c is SwitchFocus
        || c is QueryInfo || c is Quit || (c matches TMCommand::WindowEvent(e) && (e is Focused
        || e is StartMoveSize)))
}

impl TMCommand {
    /// Whether the command can change which windows are shown where.
    pub fn can_change_layout(&self) -> (b: bool)
        ensures
            b == spec_can_change_layout(*self),
    {
        match self {
            TMCommand::WindowEvent(window_event) => match window_event {
                WindowEvent::Opened(..)
                | WindowEvent::Closed(..)
                | WindowEvent::Minimized(..)
                | WindowEvent::Restored(..)
                | WindowEvent::Maximized(..)
                | WindowEvent::Unmaximized(..)
                | WindowEvent::EndMoveSize(..) => true,
                WindowEvent::Focused(..) | WindowEvent::StartMoveSize(..) => false,
            },
            TMCommand::SystemEvent(..)
            | TMCommand::Close
            | TMCommand::Insert(..)
            | TMCommand::Move(..)
            | TMCommand::Peek(..)
            | TMCommand::Resize(..)
            | TMCommand::Release(..)
            | TMCommand::Focalize
            | TMCommand::HalfFocalize
            | TMCommand::Invert
            | TMCommand::Amplify
            | TMCommand::Minimize
            | TMCommand::CycleFocalized(..)
            | TMCommand::Update(..)
            | TMCommand::FocusWorkspace { .. }
            | TMCommand::MoveToWorkspace { .. } => true,
            TMCommand::ListManagedWindows
            | TMCommand::Topmost
            | TMCommand::Focus(..)
            | TMCommand::FocusMonitor(..)
            | TMCommand::SwitchFocus
            | TMCommand::QueryInfo
            | TMCommand::Quit => false,
        }
    }
}

impl From<WindowEvent> for TMCommand {
    fn from(event: WindowEvent) -> (c: Self)
        ensures
            c == TMCommand::WindowEvent(event),
    {
        TMCommand::WindowEvent(event)
    }
}

impl vstd::std_specs::convert::FromSpecImpl<WindowEvent> for TMCommand {
    open spec fn obeys_from_spec() -> bool {
        true
    }

    open spec fn from_spec(event: WindowEvent) -> TMCommand {
        TMCommand::WindowEvent(event)
    }
}

/// A message passed between the modules of the application.
#[derive(Debug, Clone)]
pub enum MondrianMessage {
    Minimize,
    Focus(Direction),
    FocusMonitor(Direction),
    FocusWorkspace { id: String },
    MoveToWorkspace { id: String, focus: bool },
    SwitchFocus,
    /// Direction and step of a floating window.
    Move(Direction, u16),
    Insert(Direction),
    /// A move that inserts when there is no window that way: direction and
    /// step of a floating window.
    MoveInsert(Direction, u16),
    Release(Option<bool>),
    /// Direction, step of a tiled window, step of a floating window.
    Resize(Direction, u16, u16),
    /// Direction and ratio, the ratio given by the bits of an `f32`.
    Peek(Direction, u32),
    Focalize,
    HalfFocalize,
    CycleFocalized { next: bool },
    Invert,
    Amplify,
    ListManagedWindows,
    QueryInfo,
    WindowEvent(WindowEvent),
    SystemEvent(SystemEvent),
    Close,
    Topmost,
    RefreshConfig,
    OpenConfig,
    Retile,
    Configure,
    Pause(Option<bool>),
    /// A module's name, and whether to pause it (a toggle when `None`).
    PauseModule(String, Option<bool>),
    /// The windows shown and their states, after the command that changed them.
    UpdatedWindows(Vec<(WindowRef, WindowTileState)>, TMCommand),
    /// The windows about to be laid out, and whether animations are enabled.
    CoreUpdateStart(Vec<WindowRef>, bool),
    CoreUpdateError,
    CoreUpdateComplete,
    /// The answer to an information query, by the name of the module that
    /// answers; the entries shown with it are kept by the application.
    QueryInfoResponse { name: String },
    OpenLogFolder,
    About,
    Quit,
}

/// The command a message asks of the tiles manager: each command message
/// gives its command (a `Move` that does not insert, a `MoveInsert` that
/// does); the messages meant for the other modules give none.
pub open spec fn spec_command_of(m: MondrianMessage) -> Result<TMCommand, ()> {
    match m {
        MondrianMessage::Minimize => Ok(TMCommand::Minimize),
        MondrianMessage::Focus(d) => Ok(TMCommand::Focus(d)),
        MondrianMessage::FocusMonitor(d) => Ok(TMCommand::FocusMonitor(d)),
        MondrianMessage::FocusWorkspace { id } => Ok(TMCommand::FocusWorkspace { id }),
        MondrianMessage::MoveToWorkspace { id, focus } => Ok(TMCommand::MoveToWorkspace { id, focus }),
        MondrianMessage::SwitchFocus => Ok(TMCommand::SwitchFocus),
        MondrianMessage::Move(d, inc) => Ok(TMCommand::Move(d, false, inc)),
        MondrianMessage::Insert(d) => Ok(TMCommand::Insert(d)),
        MondrianMessage::MoveInsert(d, inc) => Ok(TMCommand::Move(d, true, inc)),
        MondrianMessage::Release(b) => Ok(TMCommand::Release(b)),
        MondrianMessage::Resize(d, s, fs) => Ok(TMCommand::Resize(d, s, fs)),
        MondrianMessage::Peek(d, r) => Ok(TMCommand::Peek(d, r)),
        MondrianMessage::Focalize => Ok(TMCommand::Focalize),
        MondrianMessage::HalfFocalize => Ok(TMCommand::HalfFocalize),
        MondrianMessage::CycleFocalized { next } => Ok(TMCommand::CycleFocalized(next)),
        MondrianMessage::Invert => Ok(TMCommand::Invert),
        MondrianMessage::Amplify => Ok(TMCommand::Amplify),
        MondrianMessage::ListManagedWindows => Ok(TMCommand::ListManagedWindows),
        MondrianMessage::QueryInfo => Ok(TMCommand::QueryInfo),
        MondrianMessage::WindowEvent(e) => Ok(TMCommand::WindowEvent(e)),
        MondrianMessage::SystemEvent(e) => Ok(TMCommand::SystemEvent(e)),
        MondrianMessage::Close => Ok(TMCommand::Close),
        MondrianMessage::Topmost => Ok(TMCommand::Topmost),
        _ => Err(()),
    }
}

/// Turns a message into the command it asks of the tiles manager; the
/// messages meant for the other modules give `Err(())`.
pub fn command_of(msg: &MondrianMessage) -> (r: Result<TMCommand, ()>)
    ensures
        r == spec_command_of(*msg),
{
    match msg {
        MondrianMessage::Minimize => Ok(TMCommand::Minimize),
        MondrianMessage::Focus(direction) => Ok(TMCommand::Focus(*direction)),
        MondrianMessage::FocusMonitor(direction) => Ok(TMCommand::FocusMonitor(*direction)),
        MondrianMessage::FocusWorkspace { id } => Ok(TMCommand::FocusWorkspace { id: id.clone() }),
        MondrianMessage::MoveToWorkspace { id, focus } => Ok(
            TMCommand::MoveToWorkspace { id: id.clone(), focus: *focus },
        ),
        MondrianMessage::SwitchFocus => Ok(TMCommand::SwitchFocus),
        MondrianMessage::Move(direction, floating_inc) => Ok(
            TMCommand::Move(*direction, false, *floating_inc),
        ),
        MondrianMessage::Insert(direction) => Ok(TMCommand::Insert(*direction)),
        MondrianMessage::MoveInsert(direction, floating_inc) => Ok(
            TMCommand::Move(*direction, true, *floating_inc),
        ),
        MondrianMessage::Release(b) => Ok(TMCommand::Release(*b)),
        MondrianMessage::Resize(d, s, fs) => Ok(TMCommand::Resize(*d, *s, *fs)),
        MondrianMessage::Peek(d, r) => Ok(TMCommand::Peek(*d, *r)),
        MondrianMessage::Focalize => Ok(TMCommand::Focalize),
        MondrianMessage::HalfFocalize => Ok(TMCommand::HalfFocalize),
        MondrianMessage::CycleFocalized { next } => Ok(TMCommand::CycleFocalized(*next)),
        MondrianMessage::Invert => Ok(TMCommand::Invert),
        MondrianMessage::Amplify => Ok(TMCommand::Amplify),
        MondrianMessage::ListManagedWindows => Ok(TMCommand::ListManagedWindows),
        MondrianMessage::QueryInfo => Ok(TMCommand::QueryInfo),
        MondrianMessage::WindowEvent(event) => Ok(TMCommand::WindowEvent(*event)),
        MondrianMessage::SystemEvent(event) => Ok(TMCommand::SystemEvent(*event)),
        MondrianMessage::Close => Ok(TMCommand::Close),
        MondrianMessage::Topmost => Ok(TMCommand::Topmost),
        MondrianMessage::RefreshConfig
        | MondrianMessage::OpenConfig
        | MondrianMessage::Retile
        | MondrianMessage::Configure
        | MondrianMessage::Pause(_)
        | MondrianMessage::PauseModule(_, _)
        | MondrianMessage::UpdatedWindows(..)
        | MondrianMessage::CoreUpdateStart(..)
        | MondrianMessage::CoreUpdateError
        | MondrianMessage::CoreUpdateComplete
        | MondrianMessage::QueryInfoResponse { .. }
        | MondrianMessage::OpenLogFolder
        | MondrianMessage::About
        | MondrianMessage::Quit => Err(()),
    }
}

/// An operation of the tiles manager, as a command asks for it.
#[derive(Debug)]
pub enum TMOperation {
    /// Resume the paused updates, then handle the window being maximized.
    MaximizeWindow(WindowRef),
    UnmaximizeWindow(WindowRef),
    OpenWindow(WindowRef),
    RestoreWindow(WindowRef),
    CloseWindow(WindowRef),
    MinimizeWindow(WindowRef),
    /// Pause the updates and cancel the running animation.
    StartMoveSize,
    /// Resume the updates, then handle the window resized from the first
    /// area to the second.
    ResizeWindow(WindowRef, Area, Area),
    /// Resume the updates, then handle the window dropped at a point, with
    /// the operations within a monitor and across monitors.
    MoveWindow(WindowRef, (i32, i32), IntramonitorMoveOp, IntermonitorMoveOp),
    /// Resume the updates only.
    ResumeUpdates,
    FocusWindow(WindowRef),
    VirtualDesktopDestroyed { destroyed: u128, fallback: u128 },
    VirtualDesktopChanged { old: u128, new: u128 },
    WorkareaChanged,
    DesktopFocused((i32, i32)),
    /// Nothing to do.
    Nothing,
    ChangeFocus(Direction),
    ChangeFocusMonitor(Direction),
    FocusWorkspace(String),
    MoveFocusedToWorkspace(String, bool),
    SwitchFocus,
    MinimizeFocused,
    CloseFocused,
    TopmostFocused,
    InsertFocused(Direction),
    /// Move the focused window; on finding no window that way, insert it
    /// when the flag says so.
    MoveFocused(Direction, bool, u16),
    ResizeFocused(Direction, u16, u16),
    InvertOrientation,
    ReleaseFocused(Option<bool>),
    PeekCurrent(Direction, u32),
    FocalizeFocused,
    HalfFocalizeFocused,
    AmplifyFocused,
    CycleFocalized(bool),
    /// Report the windows shown to the other modules.
    ListManagedWindows,
    /// Answer an information query.
    QueryInfo,
    UpdateLayout(bool),
}

/// The operation a command asks of the tiles manager; none for `Quit`,
/// which stops it. A change of the monitors' layout asks for nothing.
pub open spec fn spec_command_plan(c: TMCommand) -> Option<TMOperation> {
    match c {
        TMCommand::WindowEvent(e) => Some(
            match e {
                WindowEvent::Maximized(w) => TMOperation::MaximizeWindow(w),
                WindowEvent::Unmaximized(w) => TMOperation::UnmaximizeWindow(w),
                WindowEvent::Opened(w) => TMOperation::OpenWindow(w),
                WindowEvent::Restored(w) => TMOperation::RestoreWindow(w),
                WindowEvent::Closed(w) => TMOperation::CloseWindow(w),
                WindowEvent::Minimized(w) => TMOperation::MinimizeWindow(w),
                WindowEvent::StartMoveSize(_) => TMOperation::StartMoveSize,
                WindowEvent::EndMoveSize(w, res) => match res {
                    MoveSizeResult::Resized(p, a) => TMOperation::ResizeWindow(w, p, a),
                    MoveSizeResult::Moved(at, intra, inter) => TMOperation::MoveWindow(w, at, intra, inter),
                    MoveSizeResult::Unchanged => TMOperation::ResumeUpdates,
                },
                WindowEvent::Focused(w) => TMOperation::FocusWindow(w),
            },
        ),
        TMCommand::SystemEvent(e) => Some(
            match e {
                SystemEvent::VirtualDesktopRemoved { destroyed, fallback } =>
                    TMOperation::VirtualDesktopDestroyed { destroyed, fallback },
                SystemEvent::VirtualDesktopChanged { old, new } =>
                    TMOperation::VirtualDesktopChanged { old, new },
                SystemEvent::WorkareaChanged => TMOperation::WorkareaChanged,
                SystemEvent::DesktopFocused { at } => TMOperation::DesktopFocused(at),
                SystemEvent::MonitorsLayoutChanged => TMOperation::Nothing,
            },
        ),
        TMCommand::Focus(d) => Some(TMOperation::ChangeFocus(d)),
        TMCommand::FocusMonitor(d) => Some(TMOperation::ChangeFocusMonitor(d)),
        TMCommand::FocusWorkspace { id } => Some(TMOperation::FocusWorkspace(id)),
        TMCommand::MoveToWorkspace { id, focus } => Some(TMOperation::MoveFocusedToWorkspace(id, focus)),
        TMCommand::SwitchFocus => Some(TMOperation::SwitchFocus),
        TMCommand::Minimize => Some(TMOperation::MinimizeFocused),
        TMCommand::Close => Some(TMOperation::CloseFocused),
        TMCommand::Topmost => Some(TMOperation::TopmostFocused),
        TMCommand::Insert(d) => Some(TMOperation::InsertFocused(d)),
        TMCommand::Move(d, insert, inc) => Some(TMOperation::MoveFocused(d, insert, inc)),
        TMCommand::Resize(d, s, fs) => Some(TMOperation::ResizeFocused(d, s, fs)),
        TMCommand::Invert => Some(TMOperation::InvertOrientation),
        TMCommand::Release(b) => Some(TMOperation::ReleaseFocused(b)),
        TMCommand::Peek(d, r) => Some(TMOperation::PeekCurrent(d, r)),
        TMCommand::Focalize => Some(TMOperation::FocalizeFocused),
        TMCommand::HalfFocalize => Some(TMOperation::HalfFocalizeFocused),
        TMCommand::Amplify => Some(TMOperation::AmplifyFocused),
        TMCommand::CycleFocalized(next) => Some(TMOperation::CycleFocalized(next)),
        TMCommand::ListManagedWindows => Some(TMOperation::ListManagedWindows),
        TMCommand::QueryInfo => Some(TMOperation::QueryInfo),
        TMCommand::Update(animate) => Some(TMOperation::UpdateLayout(animate)),
        TMCommand::Quit => None,
    }
}

/// The operation the tiles manager performs for a command; `None` for
/// `Quit`, after which it stops.
pub fn command_plan(cmd: &TMCommand) -> (r: Option<TMOperation>)
    ensures
        r == spec_command_plan(*cmd),
{
    match cmd {
        TMCommand::WindowEvent(window_event) => Some(
            match window_event {
                WindowEvent::Maximized(w) => TMOperation::MaximizeWindow(*w),
                WindowEvent::Unmaximized(w) => TMOperation::UnmaximizeWindow(*w),
                WindowEvent::Opened(w) => TMOperation::OpenWindow(*w),
                WindowEvent::Restored(w) => TMOperation::RestoreWindow(*w),
                WindowEvent::Closed(w) => TMOperation::CloseWindow(*w),
                WindowEvent::Minimized(w) => TMOperation::MinimizeWindow(*w),
                WindowEvent::StartMoveSize(_) => TMOperation::StartMoveSize,
                WindowEvent::EndMoveSize(w, res) => match res {
                    MoveSizeResult::Resized(p, a) => TMOperation::ResizeWindow(*w, *p, *a),
                    MoveSizeResult::Moved(at, intra, inter) => TMOperation::MoveWindow(
                        *w,
                        *at,
                        *intra,
                        *inter,
                    ),
                    MoveSizeResult::Unchanged => TMOperation::ResumeUpdates,
                },
                WindowEvent::Focused(w) => TMOperation::FocusWindow(*w),
            },
        ),
        TMCommand::SystemEvent(evt) => Some(
            match evt {
                SystemEvent::VirtualDesktopRemoved { destroyed, fallback } =>
                    TMOperation::VirtualDesktopDestroyed { destroyed: *destroyed, fallback: *fallback },
                SystemEvent::VirtualDesktopChanged { old, new } =>
                    TMOperation::VirtualDesktopChanged { old: *old, new: *new },
                SystemEvent::WorkareaChanged => TMOperation::WorkareaChanged,
                SystemEvent::DesktopFocused { at } => TMOperation::DesktopFocused(*at),
                SystemEvent::MonitorsLayoutChanged => TMOperation::Nothing,
            },
        ),
        TMCommand::Focus(direction) => Some(TMOperation::ChangeFocus(*direction)),
        TMCommand::FocusMonitor(direction) => Some(TMOperation::ChangeFocusMonitor(*direction)),
        TMCommand::FocusWorkspace { id } => Some(TMOperation::FocusWorkspace(id.clone())),
        TMCommand::MoveToWorkspace { id, focus } => Some(
            TMOperation::MoveFocusedToWorkspace(id.clone(), *focus),
        ),
        TMCommand::SwitchFocus => Some(TMOperation::SwitchFocus),
        TMCommand::Minimize => Some(TMOperation::MinimizeFocused),
        TMCommand::Close => Some(TMOperation::CloseFocused),
        TMCommand::Topmost => Some(TMOperation::TopmostFocused),
        TMCommand::Insert(direction) => Some(TMOperation::InsertFocused(*direction)),
        TMCommand::Move(direction, insert_if_empty, floating_inc) => Some(
            TMOperation::MoveFocused(*direction, *insert_if_empty, *floating_inc),
        ),
        TMCommand::Resize(direction, inc, floating_inc) => Some(
            TMOperation::ResizeFocused(*direction, *inc, *floating_inc),
        ),
        TMCommand::Invert => Some(TMOperation::InvertOrientation),
        TMCommand::Release(b) => Some(TMOperation::ReleaseFocused(*b)),
        TMCommand::Peek(direction, ratio) => Some(TMOperation::PeekCurrent(*direction, *ratio)),
        TMCommand::Focalize => Some(TMOperation::FocalizeFocused),
        TMCommand::HalfFocalize => Some(TMOperation::HalfFocalizeFocused),
        TMCommand::Amplify => Some(TMOperation::AmplifyFocused),
        TMCommand::CycleFocalized(next) => Some(TMOperation::CycleFocalized(*next)),
        TMCommand::ListManagedWindows => Some(TMOperation::ListManagedWindows),
        TMCommand::QueryInfo => Some(TMOperation::QueryInfo),
        TMCommand::Update(animate) => Some(TMOperation::UpdateLayout(*animate)),
        TMCommand::Quit => None,
    }
}

/// A move that finds no window in its direction falls back to an insert
/// when the command asks for it.
pub fn move_falls_back_to_insert(error: &TilesManagerError, insert_if_empty: bool) -> (b: bool)
    ensures
        b == (insert_if_empty && *error == TilesManagerError::NoWindow),
{
    insert_if_empty && matches!(error, TilesManagerError::NoWindow)
}

/// What follows a command once the tiles manager has handled it.
#[derive(Debug, Clone, Copy, PartialEq, Eq, Structural)]
pub struct CommandFollowup {
    /// The layout is refreshed, with animations.
    pub refresh: bool,
    /// The error is logged with this severity.
    pub log: Option<LogLevel>,
    /// The listeners are told the new set of shown windows.
    pub notify: bool,
}

/// After a command: an error that requires a refresh refreshes the layout
/// (and is logged as a warning), any other error is logged with its own
/// severity; a command that can change the layout notifies the listeners
/// when the shown windows differ from those before it.
pub fn command_followup(error: Option<&TilesManagerError>, command: &TMCommand, windows_changed: bool) -> (r:
    CommandFollowup)
    ensures
        r.refresh == (error is Some && *error->0 == TilesManagerError::ContainerNotFound {
            refresh: true,
        }),
        r.log == (match error {
            None => None,
            Some(e) => if r.refresh {
                Some(LogLevel::Warn)
            } else {
                Some(
                    match *e {
                        TilesManagerError::NoContainerAtPoint(_) => LogLevel::Error,
                        TilesManagerError::NoWindowsInfo => LogLevel::Warn,
                        _ => LogLevel::Debug,
                    },
                )
            },
        }),
        r.notify == (spec_can_change_layout(*command) && windows_changed),
{
    let (refresh, log) = match error {
        Some(e) => if e.require_refresh() {
            (true, Some(LogLevel::Warn))
        } else {
            (false, Some(e.get_log_level()))
        },
        None => (false, None),
    };
    let notify = command.can_change_layout() && windows_changed;
    CommandFollowup { refresh, log, notify }
}

} // verus!
