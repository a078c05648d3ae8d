use vstd::prelude::*;

use crate::animation::{AnimationsConfig, WindowAnimation};
use crate::named::{find_named, lookup};

verus! {

/// Paddings of the four sides of an area.
#[derive(Clone, Copy, Debug, Default, PartialEq, Eq, Structural)]
pub struct Paddings {
    pub top: i16,
    pub right: i16,
    pub bottom: i16,
    pub left: i16,
}

/// Layout settings of a monitor or a workspace; `L` is the layout strategy.
#[derive(Clone, Copy, Debug, PartialEq, Eq)]
pub struct LayoutConfig<L> {
    pub tiles_padding: u8,
    pub borders_padding: Paddings,
    pub focalized_padding: Paddings,
    pub half_focalized_borders_pad: Paddings,
    pub half_focalized_tiles_pad: u8,
    pub layout_strategy: L,
}

/// Settings of a monitor.
#[derive(Debug)]
pub struct MonitorConfig<L> {
    pub layout: LayoutConfig<L>,
    pub default_workspace: String,
}

/// Settings of a workspace, with layouts for some monitors and possibly a
/// monitor it is bound to.
#[derive(Debug)]
pub struct WorkspaceConfig<L> {
    pub layout: LayoutConfig<L>,
    pub monitors: Vec<(String, LayoutConfig<L>)>,
    pub bind_to_monitor: Option<String>,
}

/// Settings of the tiles manager: defaults, overridden per monitor, which
/// are overridden per workspace, which are overridden per workspace and
/// monitor.
#[derive(Debug)]
pub struct TilesManagerConfig<L> {
    pub tiles_padding: i16,
    pub borders_padding: Paddings,
    pub focalized_padding: Paddings,
    pub half_focalized_borders_pad: Paddings,
    pub half_focalized_tiles_pad: i16,
    pub layout_strategy: L,
    pub monitors_configs: Vec<(String, MonitorConfig<L>)>,
    pub workspaces_configs: Vec<(String, WorkspaceConfig<L>)>,
    pub default_workspace: String,
    pub focus_on_empty_monitor: bool,
    pub focus_follows_cursor: bool,
    pub animation: AnimationsConfig,
    pub history_based_navigation: bool,
}

fn layout_strategy_of<L: Copy>(c: &LayoutConfig<L>) -> (r: L)
    ensures
        r == c.layout_strategy,
{
    c.layout_strategy
}

fn focalized_padding_of<L: Copy>(c: &LayoutConfig<L>) -> (r: Paddings)
    ensures
        r == c.focalized_padding,
{
    c.focalized_padding
}

fn borders_padding_of<L: Copy>(c: &LayoutConfig<L>) -> (r: Paddings)
    ensures
        r == c.borders_padding,
{
    c.borders_padding
}

fn tiles_padding_of<L: Copy>(c: &LayoutConfig<L>) -> (r: i16)
    ensures
        r == c.tiles_padding as i16,
{
    c.tiles_padding as i16
}

fn half_focalized_borders_pad_of<L: Copy>(c: &LayoutConfig<L>) -> (r: Paddings)
    ensures
        r == c.half_focalized_borders_pad,
{
    c.half_focalized_borders_pad
}

fn half_focalized_tiles_pad_of<L: Copy>(c: &LayoutConfig<L>) -> (r: i16)
    ensures
        r == c.half_focalized_tiles_pad as i16,
{
    c.half_focalized_tiles_pad as i16
}

impl<L: Copy> TilesManagerConfig<L> {
    /// The layout settings that apply to `monitor` in `workspace`: those of
    /// the workspace for that monitor, else those of the workspace, else
    /// those of the monitor; none when neither is configured.
    pub open spec fn layout_for(&self, monitor: Seq<char>, workspace: Seq<char>) -> Option<
        LayoutConfig<L>,
    > {
        match lookup(self.workspaces_configs@, workspace) {
            Some(w) => match lookup(w.monitors@, monitor) {
                Some(l) => Some(l),
                None => Some(w.layout),
            },
            None => match lookup(self.monitors_configs@, monitor) {
                Some(m) => Some(m.layout),
                None => None,
            },
        }
    }

    fn layout_config(&self, monitor_name: &str, workspace: &str) -> (r: Option<&LayoutConfig<L>>)
        ensures
            match r {
                Some(c) => self.layout_for(monitor_name@, workspace@) == Some(*c),
                None => self.layout_for(monitor_name@, workspace@) == None::<LayoutConfig<L>>,
            },
    {
        let ws = workspace.to_owned();
        let m = monitor_name.to_owned();
        match find_named(&self.workspaces_configs, &ws) {
            Some(i) => {
                let w = &self.workspaces_configs[i].1;
                match find_named(&w.monitors, &m) {
                    Some(j) => Some(&w.monitors[j].1),
                    None => Some(&w.layout),
                }
            },
            None => match find_named(&self.monitors_configs, &m) {
                Some(i) => Some(&self.monitors_configs[i].1.layout),
                None => None,
            },
        }
    }

    /// Extracts a setting from the layout settings that apply to the monitor
    /// in the workspace, or returns `default` when none apply.
    fn extract_config<V: Copy>(
        &self,
        monitor_name: &str,
        workspace: &str,
        config_extractor: impl Fn(&LayoutConfig<L>) -> V,
        default: &V,
    ) -> (r: V)
        requires
            forall|c: &LayoutConfig<L>| #[trigger] call_requires(config_extractor, (c,)),
        ensures
            match self.layout_for(monitor_name@, workspace@) {
                Some(c) => call_ensures(config_extractor, (&c,), r),
                None => r == *default,
            },
    {
        match self.layout_config(monitor_name, workspace) {
            Some(c) => config_extractor(c),
            None => *default,
        }
    }

    pub fn get_layout_strategy(&self, monitor_name: &str, workspace: &str) -> (r: L)
        ensures
            r == match self.layout_for(monitor_name@, workspace@) {
                Some(c) => c.layout_strategy,
                None => self.layout_strategy,
            },
    {
        self.extract_config(
            monitor_name,
            workspace,
            layout_strategy_of::<L>,
            &self.layout_strategy,
        )
    }

    pub fn get_focalized_padding(&self, monitor_name: &str, workspace: &str) -> (r: Paddings)
        ensures
            r == match self.layout_for(monitor_name@, workspace@) {
                Some(c) => c.focalized_padding,
                None => self.focalized_padding,
            },
    {
        self.extract_config(
            monitor_name,
            workspace,
            focalized_padding_of::<L>,
            &self.focalized_padding,
        )
    }

    pub fn get_borders_padding(&self, monitor_name: &str, workspace: &str) -> (r: Paddings)
        ensures
            r == match self.layout_for(monitor_name@, workspace@) {
                Some(c) => c.borders_padding,
                None => self.borders_padding,
            },
    {
        self.extract_config(
            monitor_name,
            workspace,
            borders_padding_of::<L>,
            &self.borders_padding,
        )
    }

    pub fn get_tiles_padding(&self, monitor_name: &str, workspace: &str) -> (r: i16)
        ensures
            r == match self.layout_for(monitor_name@, workspace@) {
                Some(c) => c.tiles_padding as i16,
                None => self.tiles_padding,
            },
    {
        self.extract_config(
            monitor_name,
            workspace,
            tiles_padding_of::<L>,
            &self.tiles_padding,
        )
    }

    pub fn get_half_focalized_borders_pad(&self, monitor_name: &str, workspace: &str) -> (r:
        Paddings)
        ensures
            r == match self.layout_for(monitor_name@, workspace@) {
                Some(c) => c.half_focalized_borders_pad,
                None => self.half_focalized_borders_pad,
            },
    {
        self.extract_config(
            monitor_name,
            workspace,
            half_focalized_borders_pad_of::<L>,
            &self.half_focalized_borders_pad,
        )
    }

    pub fn get_half_focalized_tiles_pad(&self, monitor_name: &str, workspace: &str) -> (r: i16)
        ensures
            r == match self.layout_for(monitor_name@, workspace@) {
                Some(c) => c.half_focalized_tiles_pad as i16,
                None => self.half_focalized_tiles_pad,
            },
    {
        self.extract_config(
            monitor_name,
            workspace,
            half_focalized_tiles_pad_of::<L>,
            &self.half_focalized_tiles_pad,
        )
    }

    /// The half focalized tiles padding, the same on both axes.
    pub fn get_half_focalized_tiles_pad_xy(&self, monitor_name: &str, workspace: &str) -> (r: (
        i16,
        i16,
    ))
        ensures
            r.0 == r.1,
            r.0 == match self.layout_for(monitor_name@, workspace@) {
                Some(c) => c.half_focalized_tiles_pad as i16,
                None => self.half_focalized_tiles_pad,
            },
    {
        let pad = self.get_half_focalized_tiles_pad(monitor_name, workspace);
        (pad, pad)
    }

    /// The tiles padding, the same on both axes.
    pub fn get_tiles_padding_xy(&self, monitor_name: &str, workspace: &str) -> (r: (i16, i16))
        ensures
            r.0 == r.1,
            r.0 == match self.layout_for(monitor_name@, workspace@) {
                Some(c) => c.tiles_padding as i16,
                None => self.tiles_padding,
            },
    {
        let tiles_padding = self.get_tiles_padding(monitor_name, workspace);
        (tiles_padding, tiles_padding)
    }

    /// The monitor a workspace is bound to, if it is configured and bound.
    pub fn get_bounded_monitor(&self, workspace: &str) -> (r: Option<String>)
        ensures
            r == match lookup(self.workspaces_configs@, workspace@) {
                Some(w) => w.bind_to_monitor,
                None => None::<String>,
            },
    {
        let ws = workspace.to_owned();
        match find_named(&self.workspaces_configs, &ws) {
            Some(i) => match &self.workspaces_configs[i].1.bind_to_monitor {
                Some(m) => Some(m.clone()),
                None => None,
            },
            None => None,
        }
    }

    /// The workspace a monitor starts with: its own default, else the
    /// global default.
    pub fn get_default_workspace(&self, monitor_name: &str) -> (r: String)
        ensures
            r == match lookup(self.monitors_configs@, monitor_name@) {
                Some(m) => m.default_workspace,
                None => self.default_workspace,
            },
    {
        let m = monitor_name.to_owned();
        match find_named(&self.monitors_configs, &m) {
            Some(i) => self.monitors_configs[i].1.default_workspace.clone(),
            None => self.default_workspace.clone(),
        }
    }

    /// The easing curve of the animations, if they are enabled.
    pub fn get_animations(&self) -> (r: Option<WindowAnimation>)
        ensures
            r == self.animation.animation_type,
    {
        self.animation.animation_type
    }
}

/// Settings of the tiles manager module.
#[derive(Debug)]
pub struct CoreModuleConfigs<L> {
    pub move_cursor_on_focus: bool,
    pub history_based_navigation: bool,
    pub tm_configs: TilesManagerConfig<L>,
}

} // verus!
