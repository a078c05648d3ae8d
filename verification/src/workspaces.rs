use vstd::prelude::*;

use crate::containers::{Container, same_text};
use crate::focus_history::{FocusHistory, is_latest_leaf};
use crate::placement::{WorkspaceSwitch, is_top_left, workspace_switch};
use crate::result::TilesManagerError;
use crate::utils::AreaLeaf;
use crate::window::WindowRef;

verus! {

broadcast use vstd::seq_lib::group_seq_properties;

/// Identifies the container of a workspace: a virtual desktop, a monitor
/// and the workspace's name.
#[derive(Debug)]
pub struct WorkspaceKey {
    pub vd: u128,
    pub monitor: String,
    pub workspace: String,
}

/// The containers of the workspaces, each holding for every layer the
/// leaves of its windows: on each monitor the one shown (`active`), and
/// those of the other workspaces (`inactive`); with the virtual desktop
/// shown, the focus history and the monitor last focused without a window.
/// A monitor with an active container is a monitor under management.
pub struct WorkspaceState {
    pub current_vd: u128,
    pub active: Vec<(WorkspaceKey, Container<Vec<AreaLeaf<WindowRef>>>)>,
    pub inactive: Vec<(WorkspaceKey, Container<Vec<AreaLeaf<WindowRef>>>)>,
    pub focus_history: FocusHistory,
    pub last_focused_monitor: Option<String>,
}

/// `k` is the key of workspace `workspace` of `monitor` on desktop `vd`.
pub open spec fn key_is(k: WorkspaceKey, vd: u128, monitor: Seq<char>, workspace: Seq<char>) -> bool {
    k.vd == vd && k.monitor@ == monitor && k.workspace@ == workspace
}

/// Entry `i` is the first of `s` that belongs to `monitor`.
pub open spec fn is_first_of_monitor(
    s: Seq<(WorkspaceKey, Container<Vec<AreaLeaf<WindowRef>>>)>,
    monitor: Seq<char>,
    i: int,
) -> bool {
    &&& 0 <= i < s.len()
    &&& s[i].0.monitor@ == monitor
    &&& forall|j: int| 0 <= j < i ==> (#[trigger] s[j]).0.monitor@ != monitor
}

/// Entry `i` is the first of `s` with the key of workspace `workspace` of
/// `monitor` on desktop `vd`.
pub open spec fn is_first_key(
    s: Seq<(WorkspaceKey, Container<Vec<AreaLeaf<WindowRef>>>)>,
    vd: u128,
    monitor: Seq<char>,
    workspace: Seq<char>,
    i: int,
) -> bool {
    &&& 0 <= i < s.len()
    &&& key_is(s[i].0, vd, monitor, workspace)
    &&& forall|j: int| 0 <= j < i ==> !key_is(#[trigger] s[j].0, vd, monitor, workspace)
}

/// `s` with the container `c` under key `k`: it takes the place of the
/// first entry with an equal key, or comes last when there is none.
pub open spec fn inserted(
    s: Seq<(WorkspaceKey, Container<Vec<AreaLeaf<WindowRef>>>)>,
    k: WorkspaceKey,
    c: Container<Vec<AreaLeaf<WindowRef>>>,
) -> Seq<(WorkspaceKey, Container<Vec<AreaLeaf<WindowRef>>>)> {
    if exists|i: int| is_first_key(s, k.vd, k.monitor@, k.workspace@, i) {
        s.update(choose|i: int| is_first_key(s, k.vd, k.monitor@, k.workspace@, i), (k, c))
    } else {
        s.push((k, c))
    }
}

/// The window focused when `leaves` are shown: none unless focus moves;
/// else the most recently focused of them when some is remembered by the
/// focus history (`values`), else the top left one, if any.
pub open spec fn focus_choice(
    values: Map<WindowRef, u64>,
    leaves: Seq<AreaLeaf<WindowRef>>,
    move_focus: bool,
    f: Option<WindowRef>,
) -> bool {
    if !move_focus {
        f is None
    } else if exists|j: int| 0 <= j < leaves.len() && values.contains_key(#[trigger] leaves[j].id) {
        f matches Some(w) && exists|i: int| is_latest_leaf(values, leaves, i) && leaves[i].id == w
    } else {
        match f {
            Some(w) => exists|i: int| is_top_left(leaves, i) && leaves[i].id == w,
            None => leaves.len() == 0,
        }
    }
}

proof fn lemma_first_of_monitor_unique(
    s: Seq<(WorkspaceKey, Container<Vec<AreaLeaf<WindowRef>>>)>,
    monitor: Seq<char>,
    i: int,
    j: int,
)
    requires
        is_first_of_monitor(s, monitor, i),
        is_first_of_monitor(s, monitor, j),
    ensures
        i == j,
{
    if i < j {
        assert(s[i].0.monitor@ != monitor);
    } else if j < i {
        assert(s[j].0.monitor@ != monitor);
    }
}

proof fn lemma_first_key_unique(
    s: Seq<(WorkspaceKey, Container<Vec<AreaLeaf<WindowRef>>>)>,
    vd: u128,
    monitor: Seq<char>,
    workspace: Seq<char>,
    i: int,
    j: int,
)
    requires
        is_first_key(s, vd, monitor, workspace, i),
        is_first_key(s, vd, monitor, workspace, j),
    ensures
        i == j,
{
    if i < j {
        assert(!key_is(s[i].0, vd, monitor, workspace));
    } else if j < i {
        assert(!key_is(s[j].0, vd, monitor, workspace));
    }
}

/// Position of the first active container of `monitor`.
fn find_monitor(
    s: &Vec<(WorkspaceKey, Container<Vec<AreaLeaf<WindowRef>>>)>,
    monitor: &String,
) -> (r: Option<usize>)
    ensures
        match r {
            Some(i) => is_first_of_monitor(s@, monitor@, i as int),
            None => forall|j: int| 0 <= j < s@.len() ==> (#[trigger] s@[j]).0.monitor@ != monitor@,
        },
{
    let n = s.len();
    for i in 0..n
        invariant
            n == s@.len(),
            forall|j: int| 0 <= j < i ==> (#[trigger] s@[j]).0.monitor@ != monitor@,
    {
        if same_text(&s[i].0.monitor, monitor) {
            return Some(i);
        }
    }
    None
}

/// Position of the first entry with the key of `workspace` of `monitor` on
/// desktop `vd`.
fn find_key(
    s: &Vec<(WorkspaceKey, Container<Vec<AreaLeaf<WindowRef>>>)>,
    vd: u128,
    monitor: &String,
    workspace: &String,
) -> (r: Option<usize>)
    ensures
        match r {
            Some(i) => is_first_key(s@, vd, monitor@, workspace@, i as int),
            None => forall|j: int|
                0 <= j < s@.len() ==> !key_is(#[trigger] s@[j].0, vd, monitor@, workspace@),
        },
{
    let n = s.len();
    for i in 0..n
        invariant
            n == s@.len(),
            forall|j: int| 0 <= j < i ==> !key_is(#[trigger] s@[j].0, vd, monitor@, workspace@),
    {
        let k = &s[i].0;
        if k.vd == vd && same_text(&k.monitor, monitor) && same_text(&k.workspace, workspace) {
            return Some(i);
        }
    }
    None
}

/// Shows workspace `workspace` on monitor `monitor`. The monitor must show
/// some container (else `MonitorNotFound`); when it shows that workspace
/// already nothing changes (`NoChange`). Otherwise the workspace's
/// container of the current virtual desktop leaves the inactive ones, or,
/// when there is none, `fresh` (the container made for the workspace, or
/// the error met making it, which is then returned with nothing changed)
/// is taken; it becomes the monitor's active container under the key of
/// the workspace, and the container it replaces is kept among the
/// inactive ones under its own key. The window to focus is chosen among
/// the leaves of the layer the new container shows (see `focus_choice`);
/// when the switch is not `silent` and no window gets the focus, the
/// monitor is recorded as the last focused one.
pub fn activate_workspace(
    state: &mut WorkspaceState,
    monitor: &String,
    workspace: &String,
    silent: bool,
    move_focus: bool,
    fresh: Result<Container<Vec<AreaLeaf<WindowRef>>>, TilesManagerError>,
) -> (r: Result<WorkspaceSwitch, TilesManagerError>)
    requires
        old(state).focus_history.wf(),
    ensures
        final(state).current_vd == old(state).current_vd,
        final(state).focus_history == old(state).focus_history,
        !(exists|i: int| is_first_of_monitor(old(state).active@, monitor@, i)) ==> {
            &&& r == Err::<WorkspaceSwitch, TilesManagerError>(TilesManagerError::MonitorNotFound(*monitor))
            &&& *final(state) == *old(state)
        },
        forall|p: int| #[trigger]
            is_first_of_monitor(old(state).active@, monitor@, p) ==> {
                let prev = old(state).active@[p];
                let vd = old(state).current_vd;
                let found = exists|q: int|
                    is_first_key(old(state).inactive@, vd, monitor@, workspace@, q);
                if prev.0.workspace@ == workspace@ {
                    r == Ok::<WorkspaceSwitch, TilesManagerError>(WorkspaceSwitch::NoChange)
                        && *final(state) == *old(state)
                } else if !found && (fresh is Err) {
                    r == Err::<WorkspaceSwitch, TilesManagerError>(fresh->Err_0)
                        && *final(state) == *old(state)
                } else {
                    let q = choose|q: int|
                        is_first_key(old(state).inactive@, vd, monitor@, workspace@, q);
                    let entry = if found {
                        old(state).inactive@[q]
                    } else {
                        (
                            WorkspaceKey { vd, monitor: *monitor, workspace: *workspace },
                            fresh->Ok_0,
                        )
                    };
                    let rest = if found {
                        old(state).inactive@.remove(q)
                    } else {
                        old(state).inactive@
                    };
                    let leaves = entry.1.layer_tree(entry.1.spec_current())@;
                    &&& key_is(entry.0, vd, monitor@, workspace@)
                    &&& final(state).active@ == old(state).active@.update(p, entry)
                    &&& final(state).inactive@ == inserted(rest, prev.0, prev.1)
                    &&& r matches Ok(WorkspaceSwitch::Switch { focus: f }) && focus_choice(
                        old(state).focus_history@.values,
                        leaves,
                        move_focus,
                        f,
                    ) && final(state).last_focused_monitor == (if !silent && f is None {
                        Some(*monitor)
                    } else {
                        old(state).last_focused_monitor
                    })
                }
            },
{
    let p = match find_monitor(&state.active, monitor) {
        Some(p) => p,
        None => {
            return Err(TilesManagerError::MonitorNotFound(monitor.clone()));
        },
    };
    proof {
        assert forall|p2: int| is_first_of_monitor(old(state).active@, monitor@, p2) implies p2
            == p by {
            lemma_first_of_monitor_unique(old(state).active@, monitor@, p2, p as int);
        }
    }
    if same_text(&state.active[p].0.workspace, workspace) {
        return Ok(WorkspaceSwitch::NoChange);
    }
    let vd = state.current_vd;
    let ghost old_inactive = state.inactive@;
    let ghost found = exists|q: int| is_first_key(old_inactive, vd, monitor@, workspace@, q);
    let entry = match find_key(&state.inactive, vd, monitor, workspace) {
        Some(q) => {
            proof {
                let c = choose|q2: int| is_first_key(old_inactive, vd, monitor@, workspace@, q2);
                lemma_first_key_unique(old_inactive, vd, monitor@, workspace@, c, q as int);
            }
            state.inactive.remove(q)
        },
        None => {
            match fresh {
                Ok(c) => (WorkspaceKey { vd, monitor: monitor.clone(), workspace: workspace.clone() }, c),
                Err(e) => {
                    return Err(e);
                },
            }
        },
    };
    let ghost rest = state.inactive@;
    let switch = {
        let leaves = entry.1.tree();
        let latest = state.focus_history.latest(leaves);
        proof {
            if move_focus && exists|j: int|
                0 <= j < leaves@.len() && state.focus_history@.values.contains_key(
                    #[trigger] leaves@[j].id,
                ) {
                assert(latest is Some);
            }
        }
        workspace_switch(&state.active[p].0.workspace, workspace, leaves, latest, move_focus)
    };
    let ghost f = match switch {
        WorkspaceSwitch::Switch { focus } => focus,
        WorkspaceSwitch::NoChange => None,
    };
    if !silent {
        if let WorkspaceSwitch::Switch { focus: None } = switch {
            state.last_focused_monitor = Some(monitor.clone());
        }
    }
    let prev = state.active.remove(p);
    state.active.insert(p, entry);
    proof {
        assert(state.active@ =~= old(state).active@.update(p as int, entry));
    }
    match find_key(&state.inactive, prev.0.vd, &prev.0.monitor, &prev.0.workspace) {
        Some(i) => {
            let ghost s = state.inactive@;
            proof {
                let c = choose|i2: int|
                    is_first_key(s, prev.0.vd, prev.0.monitor@, prev.0.workspace@, i2);
                lemma_first_key_unique(
                    s,
                    prev.0.vd,
                    prev.0.monitor@,
                    prev.0.workspace@,
                    c,
                    i as int,
                );
            }
            state.inactive.remove(i);
            state.inactive.insert(i, prev);
            proof {
                assert(state.inactive@ =~= s.update(i as int, prev));
            }
        },
        None => {
            state.inactive.push(prev);
        },
    }
    Ok(switch)
}

} // verus!
