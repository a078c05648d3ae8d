use mondrian::commands::{
    command_followup, command_of, command_plan, move_falls_back_to_insert, CommandFollowup, MondrianMessage,
    MoveSizeResult, SystemEvent, TMCommand, TMOperation, WindowEvent,
};
use mondrian::geometry::{Area, Direction};
use mondrian::result::{LogLevel, TilesManagerError};
use mondrian::window::WindowRef;

#[test]
fn commands_that_change_the_layout() {
    let w = WindowRef::new(1);
    let changing = vec![
        TMCommand::WindowEvent(WindowEvent::Opened(w)),
        TMCommand::WindowEvent(WindowEvent::Closed(w)),
        TMCommand::WindowEvent(WindowEvent::Minimized(w)),
        TMCommand::WindowEvent(WindowEvent::Restored(w)),
        TMCommand::WindowEvent(WindowEvent::Maximized(w)),
        TMCommand::WindowEvent(WindowEvent::Unmaximized(w)),
        TMCommand::WindowEvent(WindowEvent::EndMoveSize(w, MoveSizeResult::Unchanged)),
        TMCommand::WindowEvent(WindowEvent::EndMoveSize(w, MoveSizeResult::Resized(Area::new(0, 0, 1, 1), Area::new(0, 0, 2, 2)))),
        TMCommand::SystemEvent(SystemEvent::WorkareaChanged),
        TMCommand::SystemEvent(SystemEvent::VirtualDesktopChanged { old: 1, new: 2 }),
        TMCommand::Close,
        TMCommand::Insert(Direction::Left),
        TMCommand::Move(Direction::Up, true, 10),
        TMCommand::Peek(Direction::Down, 0.5f32.to_bits()),
        TMCommand::Resize(Direction::Right, 40, 40),
        TMCommand::Release(None),
        TMCommand::Focalize,
        TMCommand::HalfFocalize,
        TMCommand::Invert,
        TMCommand::Amplify,
        TMCommand::Minimize,
        TMCommand::CycleFocalized(true),
        TMCommand::Update(false),
        TMCommand::FocusWorkspace { id: "1".to_string() },
        TMCommand::MoveToWorkspace { id: "2".to_string(), focus: true },
    ];
    for c in &changing {
        assert!(c.can_change_layout(), "{:?}", c);
    }
}

#[test]
fn commands_that_leave_the_layout() {
    let w = WindowRef::new(1);
    let steady = vec![
        TMCommand::WindowEvent(WindowEvent::Focused(w)),
        TMCommand::WindowEvent(WindowEvent::StartMoveSize(w)),
        TMCommand::ListManagedWindows,
        TMCommand::Topmost,
        TMCommand::Focus(Direction::Left),
        TMCommand::FocusMonitor(Direction::Right),
        TMCommand::SwitchFocus,
        TMCommand::QueryInfo,
        TMCommand::Quit,
    ];
    for c in &steady {
        assert!(!c.can_change_layout(), "{:?}", c);
    }
}

#[test]
fn window_event_into_command() {
    let c: TMCommand = WindowEvent::Opened(WindowRef::new(3)).into();
    assert!(matches!(c, TMCommand::WindowEvent(WindowEvent::Opened(w)) if w == WindowRef::new(3)));
}

#[test]
fn move_falls_back_only_without_window() {
    assert!(move_falls_back_to_insert(&TilesManagerError::NoWindow, true));
    assert!(!move_falls_back_to_insert(&TilesManagerError::NoWindow, false));
    assert!(!move_falls_back_to_insert(&TilesManagerError::Generic, true));
}

#[test]
fn followup_of_errors() {
    let c = TMCommand::Close;
    assert_eq!(
        command_followup(Some(&TilesManagerError::container_not_found_refresh()), &c, false),
        CommandFollowup { refresh: true, log: Some(LogLevel::Warn), notify: false }
    );
    assert_eq!(
        command_followup(Some(&TilesManagerError::NoContainerAtPoint((1, 2))), &c, false),
        CommandFollowup { refresh: false, log: Some(LogLevel::Error), notify: false }
    );
    assert_eq!(
        command_followup(Some(&TilesManagerError::NoWindowsInfo), &c, false),
        CommandFollowup { refresh: false, log: Some(LogLevel::Warn), notify: false }
    );
    assert_eq!(
        command_followup(Some(&TilesManagerError::container_not_found()), &c, true),
        CommandFollowup { refresh: false, log: Some(LogLevel::Debug), notify: true }
    );
}

#[test]
fn followup_notifies_only_for_layout_changes() {
    assert_eq!(
        command_followup(None, &TMCommand::Close, true),
        CommandFollowup { refresh: false, log: None, notify: true }
    );
    assert_eq!(
        command_followup(None, &TMCommand::Close, false),
        CommandFollowup { refresh: false, log: None, notify: false }
    );
    assert_eq!(
        command_followup(None, &TMCommand::Focus(Direction::Up), true),
        CommandFollowup { refresh: false, log: None, notify: false }
    );
}

#[test]
fn move_insert_message_moves_and_inserts() {
    assert!(matches!(
        command_of(&MondrianMessage::MoveInsert(Direction::Left, 20)),
        Ok(TMCommand::Move(Direction::Left, true, 20))
    ));
    assert!(matches!(
        command_of(&MondrianMessage::Move(Direction::Up, 5)),
        Ok(TMCommand::Move(Direction::Up, false, 5))
    ));
}

#[test]
fn command_messages_give_their_commands() {
    assert!(matches!(command_of(&MondrianMessage::Focus(Direction::Right)), Ok(TMCommand::Focus(Direction::Right))));
    assert!(matches!(command_of(&MondrianMessage::Insert(Direction::Down)), Ok(TMCommand::Insert(Direction::Down))));
    assert!(matches!(
        command_of(&MondrianMessage::Resize(Direction::Left, 30, 40)),
        Ok(TMCommand::Resize(Direction::Left, 30, 40))
    ));
    assert!(matches!(command_of(&MondrianMessage::Invert), Ok(TMCommand::Invert)));
    assert!(matches!(command_of(&MondrianMessage::Release(Some(true))), Ok(TMCommand::Release(Some(true)))));
    assert!(matches!(command_of(&MondrianMessage::Focalize), Ok(TMCommand::Focalize)));
    assert!(matches!(command_of(&MondrianMessage::Amplify), Ok(TMCommand::Amplify)));
    assert!(matches!(command_of(&MondrianMessage::Minimize), Ok(TMCommand::Minimize)));
    assert!(matches!(
        command_of(&MondrianMessage::CycleFocalized { next: false }),
        Ok(TMCommand::CycleFocalized(false))
    ));
    match command_of(&MondrianMessage::MoveToWorkspace { id: "2".to_string(), focus: true }) {
        Ok(TMCommand::MoveToWorkspace { id, focus }) => {
            assert_eq!(id, "2");
            assert!(focus);
        }
        _ => panic!("expected a move to a workspace"),
    }
}

#[test]
fn messages_for_other_modules_give_no_command() {
    assert!(command_of(&MondrianMessage::Quit).is_err());
    assert!(command_of(&MondrianMessage::RefreshConfig).is_err());
    assert!(command_of(&MondrianMessage::Pause(Some(true))).is_err());
    assert!(command_of(&MondrianMessage::PauseModule("keybindings".to_string(), None)).is_err());
    assert!(command_of(&MondrianMessage::QueryInfoResponse { name: "Tiles Manager".to_string() }).is_err());
    assert!(command_of(&MondrianMessage::About).is_err());
}

#[test]
fn command_plan_dispatches_each_command() {
    let w = WindowRef::new(3);
    assert!(command_plan(&TMCommand::Quit).is_none());
    assert!(matches!(
        command_plan(&TMCommand::Move(Direction::Left, true, 10)),
        Some(TMOperation::MoveFocused(Direction::Left, true, 10))
    ));
    assert!(matches!(
        command_plan(&TMCommand::WindowEvent(WindowEvent::EndMoveSize(w, MoveSizeResult::Unchanged))),
        Some(TMOperation::ResumeUpdates)
    ));
    assert!(matches!(
        command_plan(&TMCommand::WindowEvent(WindowEvent::StartMoveSize(w))),
        Some(TMOperation::StartMoveSize)
    ));
    assert!(matches!(
        command_plan(&TMCommand::WindowEvent(WindowEvent::Maximized(w))),
        Some(TMOperation::MaximizeWindow(x)) if x == w
    ));
    assert!(matches!(
        command_plan(&TMCommand::SystemEvent(SystemEvent::MonitorsLayoutChanged)),
        Some(TMOperation::Nothing)
    ));
    assert!(matches!(command_plan(&TMCommand::Update(true)), Some(TMOperation::UpdateLayout(true))));
    assert!(matches!(command_plan(&TMCommand::Invert), Some(TMOperation::InvertOrientation)));
}
