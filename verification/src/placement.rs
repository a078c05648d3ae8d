use vstd::prelude::*;

use crate::containers::{ContainerLayer, same_text};
use crate::geometry::Area;
use crate::named::{find_named, lookup};
use crate::rules::{AddOptions, WorkspaceOptions};
use crate::tm::WindowTileState;
use crate::utils::AreaLeaf;
use crate::window::WindowRef;

verus! {

/// Where a window being added goes, before any container is looked up.
#[derive(Debug, Clone, Copy)]
pub enum AddTarget {
    /// The window floats, is maximized or is focalized: nothing changes.
    Unchanged,
    /// The window sits in an inactive workspace, which is activated.
    ActivateWorkspace,
    /// Neither a preferred position nor the window's area is known.
    NoPosition,
    /// The window goes to the container nearest to this point.
    At((i32, i32)),
}

/// Adding leaves these windows as they are.
pub open spec fn skips_add(state: Option<WindowTileState>) -> bool {
    ||| state == Some(WindowTileState::Floating)
    ||| state == Some(WindowTileState::Maximized)
    ||| state == Some(WindowTileState::Focalized)
}

/// The center of the work area of the monitor that the rules name, when
/// rules are followed and that monitor is managed.
pub open spec fn rule_monitor_center<F>(
    options: Option<AddOptions<F>>,
    check_rules: bool,
    monitors: Seq<(String, Area)>,
) -> Option<(int, int)> {
    if !check_rules {
        None
    } else {
        match options {
            Some(o) => match o.monitor {
                Some(m) => match lookup(monitors, m@) {
                    Some(a) => Some(a.center()),
                    None => None,
                },
                None => None,
            },
            None => None,
        }
    }
}

/// `t` is the point `c`.
pub open spec fn targets(t: AddTarget, c: (int, int)) -> bool {
    match t {
        AddTarget::At(p) => p.0 == c.0 && p.1 == c.1,
        _ => false,
    }
}

fn monitor_center<F>(
    options: &Option<AddOptions<F>>,
    check_rules: bool,
    monitors: &Vec<(String, Area)>,
) -> (r: Option<(i32, i32)>)
    requires
        forall|i: int| 0 <= i < monitors@.len() ==> (#[trigger] monitors@[i]).1.wf(),
    ensures
        match rule_monitor_center(*options, check_rules, monitors@) {
            Some(c) => match r {
                Some(p) => p.0 == c.0 && p.1 == c.1,
                None => false,
            },
            None => r is None,
        },
{
    if !check_rules {
        return None;
    }
    match options {
        Some(o) => match &o.monitor {
            Some(m) => match find_named(monitors, m) {
                Some(i) => Some(monitors[i].1.get_center()),
                None => None,
            },
            None => None,
        },
        None => None,
    }
}

/// The first step of adding a window: a floating, maximized or focalized
/// window is left alone; a window of an inactive workspace has that
/// workspace activated; otherwise the window goes near the monitor that the
/// rules name (when rules are followed and that monitor is managed), else
/// near `prefer_position`, else near the center of the window. With no
/// position at all the window cannot be placed. `monitors` holds the
/// managed monitors by name with their work areas.
pub fn add_target<F>(
    state: Option<WindowTileState>,
    in_inactive_workspace: bool,
    prefer_position: Option<(i32, i32)>,
    window_center: Option<(i32, i32)>,
    options: &Option<AddOptions<F>>,
    check_rules: bool,
    monitors: &Vec<(String, Area)>,
) -> (r: AddTarget)
    requires
        forall|i: int| 0 <= i < monitors@.len() ==> (#[trigger] monitors@[i]).1.wf(),
    ensures
        skips_add(state) ==> r == AddTarget::Unchanged,
        !skips_add(state) && in_inactive_workspace ==> r == AddTarget::ActivateWorkspace,
        !skips_add(state) && !in_inactive_workspace && prefer_position is None && window_center is None
            ==> r == AddTarget::NoPosition,
        !skips_add(state) && !in_inactive_workspace && (prefer_position is Some || window_center is Some)
            ==> match rule_monitor_center(*options, check_rules, monitors@) {
            Some(c) => targets(r, c),
            None => r == AddTarget::At(
                if prefer_position is Some {
                    prefer_position->0
                } else {
                    window_center->0
                },
            ),
        },
{
    let skip = match state {
        Some(WindowTileState::Floating) | Some(WindowTileState::Maximized) | Some(
            WindowTileState::Focalized,
        ) => true,
        _ => false,
    };
    if skip {
        return AddTarget::Unchanged;
    }
    if in_inactive_workspace {
        return AddTarget::ActivateWorkspace;
    }
    let center = match prefer_position {
        Some(p) => p,
        None => match window_center {
            Some(c) => c,
            None => {
                return AddTarget::NoPosition;
            },
        },
    };
    match monitor_center(options, check_rules, monitors) {
        Some(c) => AddTarget::At(c),
        None => AddTarget::At(center),
    }
}

/// What follows once the container that receives a window is known.
#[derive(Debug)]
pub struct AddPlan {
    /// The workspace that a rule sends the window to, when it is not the
    /// current one of that container.
    pub workspace: Option<WorkspaceOptions>,
    /// That workspace is activated without being shown.
    pub silent: bool,
    /// The monitor shows a focalized layer and the window is not managed
    /// yet: the monitor is restored first.
    pub restore_monitor: bool,
    /// The window stays in the current workspace: a maximized window of the
    /// monitor is restored.
    pub restore_maximized: bool,
    /// A rule makes the window float.
    pub release_floating: bool,
    /// The workspace was activated silently and the window is not released
    /// by a floating rule: the previous workspace is shown again.
    pub switch_back: bool,
}

/// The workspace options of the rules, when followed and naming a
/// workspace other than `current`.
pub open spec fn rule_workspace<F>(
    options: Option<AddOptions<F>>,
    check_rules: bool,
    current: Seq<char>,
) -> Option<WorkspaceOptions> {
    if !check_rules {
        None
    } else {
        match options {
            Some(o) => match o.workspace_options {
                Some(w) => if w.workspace@ != current {
                    Some(w)
                } else {
                    None
                },
                None => None,
            },
            None => None,
        }
    }
}

pub open spec fn has_floating_rule<F>(options: Option<AddOptions<F>>, check_rules: bool) -> bool {
    check_rules && options is Some && options->0.floating_config is Some
}

fn clone_workspace_options(w: &WorkspaceOptions) -> (r: WorkspaceOptions)
    ensures
        r == *w,
{
    WorkspaceOptions { workspace: w.workspace.clone(), silent: w.silent }
}

/// The second step of adding a window, once the container that receives it
/// is known by its current workspace and layer: a rule may send it to
/// another workspace, activated silently when the rule says so or when
/// workspace switches are prevented, and shown back afterwards in that
/// case, unless a floating rule releases the window, which ends the adding
/// before that; a focalized or half focalized monitor is restored first for a
/// window not yet managed; a window that stays in the current workspace
/// restores a maximized window; a floating rule releases the window.
pub fn add_plan<F>(
    options: &Option<AddOptions<F>>,
    check_rules: bool,
    prevent_workspace_switch: bool,
    current_workspace: &String,
    layer: ContainerLayer,
    managed: bool,
) -> (p: AddPlan)
    ensures
        p.workspace == rule_workspace(*options, check_rules, current_workspace@),
        p.silent == (p.workspace is Some && (p.workspace->0.silent || prevent_workspace_switch)),
        p.restore_monitor == (layer != ContainerLayer::Normal && !managed),
        p.restore_maximized == p.workspace is None,
        p.release_floating == has_floating_rule(*options, check_rules),
        p.switch_back == (p.silent && !p.release_floating),
{
    let workspace = if !check_rules {
        None
    } else {
        match options {
            Some(o) => match &o.workspace_options {
                Some(w) => if !same_text(&w.workspace, current_workspace) {
                    Some(clone_workspace_options(w))
                } else {
                    None
                },
                None => None,
            },
            None => None,
        }
    };
    let silent = match &workspace {
        Some(w) => w.silent || prevent_workspace_switch,
        None => false,
    };
    let restore_monitor = layer.is_focalized_or_half() && !managed;
    let restore_maximized = workspace.is_none();
    let release_floating = check_rules && match options {
        Some(o) => o.floating_config.is_some(),
        None => false,
    };
    AddPlan {
        workspace,
        silent,
        restore_monitor,
        restore_maximized,
        release_floating,
        switch_back: silent && !release_floating,
    }
}

/// `a` lies before `b` reading left to right, then top to bottom.
pub open spec fn before(a: Area, b: Area) -> bool {
    a.x < b.x || (a.x == b.x && a.y < b.y)
}

/// Leaf `i` is the first of the leaves farthest to the left, then to the top.
pub open spec fn is_top_left(s: Seq<AreaLeaf<WindowRef>>, i: int) -> bool {
    &&& 0 <= i < s.len()
    &&& forall|j: int| 0 <= j < i ==> before(s[i].viewbox, #[trigger] s[j].viewbox)
    &&& forall|j: int| i < j < s.len() ==> !before(#[trigger] s[j].viewbox, s[i].viewbox)
}

/// Index of the top left leaf: the first of those farthest to the left,
/// then to the top.
pub fn top_left(leaves: &Vec<AreaLeaf<WindowRef>>) -> (r: Option<usize>)
    ensures
        match r {
            Some(i) => is_top_left(leaves@, i as int),
            None => leaves@.len() == 0,
        },
{
    if leaves.len() == 0 {
        return None;
    }
    let mut best: usize = 0;
    let n = leaves.len();
    for i in 1..n
        invariant
            n == leaves@.len(),
            best < i,
            forall|j: int| 0 <= j < best ==> before(leaves@[best as int].viewbox, #[trigger] leaves@[j].viewbox),
            forall|j: int| best < j < i ==> !before(#[trigger] leaves@[j].viewbox, leaves@[best as int].viewbox),
    {
        let a = leaves[i].viewbox;
        let b = leaves[best].viewbox;
        if a.x < b.x || (a.x == b.x && a.y < b.y) {
            best = i;
        }
    }
    Some(best)
}

/// The outcome of activating a workspace of a monitor.
#[derive(Debug, Clone, Copy, PartialEq, Eq, Structural)]
pub enum WorkspaceSwitch {
    /// The workspace is the one shown already.
    NoChange,
    /// The workspace is shown, and this window focused, if any.
    Switch { focus: Option<WindowRef> },
}

/// The window focused after `target` replaces `current`: when focus moves,
/// the most recently focused of its windows (`latest`), else its top left
/// one; nothing when focus stays.
pub fn workspace_switch(
    current: &String,
    target: &String,
    leaves: &Vec<AreaLeaf<WindowRef>>,
    latest: Option<AreaLeaf<WindowRef>>,
    move_focus: bool,
) -> (r: WorkspaceSwitch)
    ensures
        current@ == target@ ==> r == WorkspaceSwitch::NoChange,
        current@ != target@ && !move_focus ==> r == (WorkspaceSwitch::Switch { focus: None }),
        current@ != target@ && move_focus && latest is Some ==> r == (WorkspaceSwitch::Switch {
            focus: Some(latest->0.id),
        }),
        current@ != target@ && move_focus && latest is None ==> match r {
            WorkspaceSwitch::Switch { focus: Some(w) } => exists|i: int|
                is_top_left(leaves@, i) && leaves@[i].id == w,
            WorkspaceSwitch::Switch { focus: None } => leaves@.len() == 0,
            WorkspaceSwitch::NoChange => false,
        },
{
    if same_text(current, target) {
        return WorkspaceSwitch::NoChange;
    }
    if !move_focus {
        return WorkspaceSwitch::Switch { focus: None };
    }
    match latest {
        Some(l) => WorkspaceSwitch::Switch { focus: Some(l.id) },
        None => match top_left(leaves) {
            Some(i) => WorkspaceSwitch::Switch { focus: Some(leaves[i].id) },
            None => WorkspaceSwitch::Switch { focus: None },
        },
    }
}

} // verus!
