use mondrian::animation::{AnimationsConfig, WindowAnimation, WindowAnimationQueueInfo};
use mondrian::configs::{LayoutConfig, MonitorConfig, Paddings, TilesManagerConfig, WorkspaceConfig};
use mondrian::geometry::Area;
use mondrian::tm_configs::TilesManagerConfig as BasicTilesManagerConfig;

fn pads(v: i16) -> Paddings {
    Paddings { top: v, right: v, bottom: v, left: v }
}

fn layout(tiles: u8, strategy: char) -> LayoutConfig<char> {
    LayoutConfig {
        tiles_padding: tiles,
        borders_padding: pads(tiles as i16 + 1),
        focalized_padding: pads(tiles as i16 + 2),
        half_focalized_borders_pad: pads(tiles as i16 + 3),
        half_focalized_tiles_pad: tiles + 4,
        layout_strategy: strategy,
    }
}

fn config() -> TilesManagerConfig<char> {
    TilesManagerConfig {
        tiles_padding: 12,
        borders_padding: pads(18),
        focalized_padding: pads(8),
        half_focalized_borders_pad: pads(9),
        half_focalized_tiles_pad: 7,
        layout_strategy: 'g',
        monitors_configs: vec![(
            "MONITOR1".to_string(),
            MonitorConfig { layout: layout(20, 'h'), default_workspace: "3".to_string() },
        )],
        workspaces_configs: vec![
            (
                "dev".to_string(),
                WorkspaceConfig {
                    layout: layout(30, 'v'),
                    monitors: vec![("MONITOR2".to_string(), layout(40, 't'))],
                    bind_to_monitor: Some("MONITOR2".to_string()),
                },
            ),
            (
                "web".to_string(),
                WorkspaceConfig { layout: layout(50, 's'), monitors: vec![], bind_to_monitor: None },
            ),
        ],
        default_workspace: "1".to_string(),
        focus_on_empty_monitor: false,
        focus_follows_cursor: false,
        animation: AnimationsConfig { animation_type: Some(WindowAnimation::EaseOutBounce), duration: 300, framerate: 60 },
        history_based_navigation: false,
    }
}

#[test]
fn layout_from_workspace_and_monitor() {
    let c = config();
    assert_eq!(c.get_layout_strategy("MONITOR2", "dev"), 't');
    assert_eq!(c.get_tiles_padding("MONITOR2", "dev"), 40);
    assert_eq!(c.get_borders_padding("MONITOR2", "dev"), pads(41));
    assert_eq!(c.get_focalized_padding("MONITOR2", "dev"), pads(42));
    assert_eq!(c.get_half_focalized_borders_pad("MONITOR2", "dev"), pads(43));
    assert_eq!(c.get_half_focalized_tiles_pad("MONITOR2", "dev"), 44);
    assert_eq!(c.get_half_focalized_tiles_pad_xy("MONITOR2", "dev"), (44, 44));
    assert_eq!(c.get_tiles_padding_xy("MONITOR2", "dev"), (40, 40));
}

#[test]
fn layout_from_workspace_then_monitor_then_defaults() {
    let c = config();
    assert_eq!(c.get_layout_strategy("MONITOR1", "dev"), 'v');
    assert_eq!(c.get_tiles_padding("MONITOR1", "web"), 50);
    assert_eq!(c.get_layout_strategy("MONITOR1", "other"), 'h');
    assert_eq!(c.get_tiles_padding("MONITOR1", "other"), 20);
    assert_eq!(c.get_layout_strategy("MONITOR3", "other"), 'g');
    assert_eq!(c.get_tiles_padding("MONITOR3", "other"), 12);
    assert_eq!(c.get_borders_padding("MONITOR3", "other"), pads(18));
    assert_eq!(c.get_focalized_padding("MONITOR3", "other"), pads(8));
    assert_eq!(c.get_half_focalized_borders_pad("MONITOR3", "other"), pads(9));
    assert_eq!(c.get_half_focalized_tiles_pad_xy("MONITOR3", "other"), (7, 7));
}

#[test]
fn bound_monitor_and_default_workspace() {
    let c = config();
    assert_eq!(c.get_bounded_monitor("dev"), Some("MONITOR2".to_string()));
    assert_eq!(c.get_bounded_monitor("web"), None);
    assert_eq!(c.get_bounded_monitor("none"), None);
    assert_eq!(c.get_default_workspace("MONITOR1"), "3");
    assert_eq!(c.get_default_workspace("MONITOR9"), "1");
    assert_eq!(c.get_animations(), Some(WindowAnimation::EaseOutBounce));
}

#[test]
fn basic_config_paddings() {
    let c = BasicTilesManagerConfig::new(12, 18, 8, true, 300, 60, Some(WindowAnimation::Linear));
    assert_eq!(c.get_focalized_pad(), 8);
    assert_eq!(c.get_border_pad(), 6);
    assert_eq!(c.get_tile_padx(), 12);
    assert_eq!(c.get_tile_pady(), 12);
    assert_eq!(c.get_tile_pad_xy(), (12, 12));
    assert_eq!(c.get_animations(), Some(WindowAnimation::Linear));
    assert_eq!(c.get_animation_duration(), 300);
    assert_eq!(c.get_framerate(), 60);
}

#[test]
fn insert_in_monitor_can_be_inverted() {
    let c = BasicTilesManagerConfig::new(0, 0, 0, true, 100, 30, None);
    assert!(c.is_insert_in_monitor(false));
    assert!(!c.is_insert_in_monitor(true));
    let c = BasicTilesManagerConfig::new(0, 0, 0, false, 100, 30, None);
    assert!(!c.is_insert_in_monitor(false));
    assert!(c.is_insert_in_monitor(true));
    assert_eq!(c.get_animations(), None);
}

#[test]
fn animation_defaults_and_queue_info() {
    assert_eq!(WindowAnimation::default(), WindowAnimation::Linear);
    let i = WindowAnimationQueueInfo::new(Area::new(1, 2, 3, 4), true);
    assert_eq!(i.target_area, Area::new(1, 2, 3, 4));
    assert!(i.topmost);
}

use mondrian::animation::{frame_duration_ms, AnimationQueue};
use mondrian::window::WindowRef;

#[test]
fn frame_durations() {
    assert_eq!(frame_duration_ms(60), 16);
    assert_eq!(frame_duration_ms(1), 1000);
    assert_eq!(frame_duration_ms(240), 4);
}

#[test]
fn animation_queue_moves() {
    let mut q = AnimationQueue::new();
    let a = WindowRef::new(1);
    let b = WindowRef::new(2);
    let c = WindowRef::new(3);
    q.queue(a, Area::new(0, 0, 10, 10), false);
    q.queue(b, Area::new(10, 0, 10, 10), true);
    q.queue(c, Area::new(20, 0, 10, 10), false);
    q.queue(a, Area::new(0, 0, 20, 20), false);
    assert_eq!(q.windows(), vec![a, b, c]);
    assert!(q.contains(b));
    let moves = q.animation_moves(&vec![Some(Area::new(5, 5, 5, 5)), Some(Area::new(10, 0, 10, 10)), None]);
    assert_eq!(moves, vec![(a, Area::new(5, 5, 5, 5), Area::new(0, 0, 20, 20))]);
    q.dequeue(a);
    assert!(!q.contains(a));
    assert_eq!(q.windows(), vec![b, c]);
    q.clear();
    assert!(q.windows().is_empty());
}
