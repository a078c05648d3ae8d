use vstd::prelude::*;

use crate::containers::same_text;
use crate::geometry::Area;

verus! {

/// Position of the last backslash of `p`, or -1 when it has none.
pub open spec fn last_separator(p: Seq<char>) -> int
    decreases p.len(),
{
    if p.len() == 0 {
        -1
    } else if p.last() == '\\' {
        p.len() - 1
    } else {
        last_separator(p.drop_last())
    }
}

proof fn lemma_last_separator_bounds(p: Seq<char>)
    ensures
        -1 <= last_separator(p) < p.len(),
        last_separator(p) >= 0 ==> p[last_separator(p)] == '\\',
    decreases p.len(),
{
    if p.len() > 0 && p.last() != '\\' {
        lemma_last_separator_bounds(p.drop_last());
    }
}

/// The name of an executable from its path: what follows the last
/// backslash, or the whole path when it has none.
pub fn executable_name(path: &String) -> (r: String)
    ensures
        r@ == path@.subrange(last_separator(path@) + 1, path@.len() as int),
{
    let s = path.as_str();
    let n = s.unicode_len();
    let mut start: usize = 0;
    for i in 0..n
        invariant
            n == path@.len(),
            s@ == path@,
            start as int == last_separator(path@.take(i as int)) + 1,
    {
        proof {
            let t = path@.take(i + 1);
            assert(t.drop_last() =~= path@.take(i as int));
            lemma_last_separator_bounds(path@.take(i as int));
        }
        if s.get_char(i) == '\\' {
            start = i + 1;
        }
    }
    assert(path@.take(n as int) =~= path@);
    proof {
        lemma_last_separator_bounds(path@);
    }
    s.substring_char(start, n).to_owned()
}

/// What is known of a top level window when deciding whether it is
/// managed: whether its handle is valid, the name of its executable, whether
/// it has no owner, whether it is visible, minimized, a pop-up, cloaked, and
/// whether its title bar is invisible.
#[derive(Debug)]
pub struct WindowFacts {
    pub valid: bool,
    pub exe_name: Option<String>,
    pub no_owner: bool,
    pub visible: bool,
    pub iconic: bool,
    pub popup: bool,
    pub cloaked: bool,
    pub title_bar_invisible: bool,
}

/// Whether the user can manage a window: a valid window of a known
/// executable other than this program, without owner, visible and not
/// minimized when those are checked, not a cloaked pop-up, and with a
/// visible title bar when that is checked.
pub fn is_user_manageable_window(
    facts: &WindowFacts,
    check_visibility: bool,
    check_iconic: bool,
    check_title_bar: bool,
) -> (r: bool)
    ensures
        r == {
            &&& facts.valid
            &&& facts.exe_name is Some
            &&& facts.exe_name->0@ != "mondrian.exe"@
            &&& facts.no_owner
            &&& check_visibility ==> facts.visible
            &&& check_iconic ==> !facts.iconic
            &&& !(facts.popup && facts.cloaked)
            &&& !(check_title_bar && facts.title_bar_invisible)
        },
{
    if !facts.valid {
        return false;
    }
    let own = "mondrian.exe".to_owned();
    match &facts.exe_name {
        None => {
            return false;
        },
        Some(s) => {
            if same_text(s, &own) {
                return false;
            }
        },
    }
    if !facts.no_owner {
        return false;
    }
    if check_visibility && !facts.visible {
        return false;
    }
    if check_iconic && facts.iconic {
        return false;
    }
    if facts.popup && facts.cloaked {
        return false;
    }
    if check_title_bar && facts.title_bar_invisible {
        return false;
    }
    true
}

/// The earlier, stricter test of a window that the user can manage:
/// visible when that is checked, without owner, not minimized when that is
/// checked, not a pop-up, and with a visible title bar; the executable is
/// not looked at.
pub fn is_user_managable_window(facts: &WindowFacts, check_visibility: bool, check_iconic: bool) -> (r:
    bool)
    ensures
        r == {
            &&& check_visibility ==> facts.visible
            &&& facts.no_owner
            &&& check_iconic ==> !facts.iconic
            &&& !facts.popup
            &&& !facts.title_bar_invisible
        },
{
    if check_visibility && !facts.visible {
        return false;
    }
    if !facts.no_owner {
        return false;
    }
    if check_iconic && facts.iconic {
        return false;
    }
    if facts.popup {
        return false;
    }
    !facts.title_bar_invisible
}

/// Whether a window is the desktop's program manager: the window of class
/// `Progman` of the explorer.
pub fn is_program_manager_window(exe_name: &Option<String>, class_name: &String) -> (r: bool)
    ensures
        r == (exe_name is Some && exe_name->0@ == "explorer.exe"@ && class_name@ == "Progman"@),
{
    let explorer = "explorer.exe".to_owned();
    let progman = "Progman".to_owned();
    match exe_name {
        Some(e) => same_text(e, &explorer) && same_text(class_name, &progman),
        None => false,
    }
}

/// A window rectangle `[left, top, right, bottom]` as `[x, y, width, height]`.
pub fn get_window_box(rect: [i32; 4]) -> (r: [i32; 4])
    requires
        i32::MIN <= rect[2] - rect[0] <= i32::MAX,
        i32::MIN <= rect[3] - rect[1] <= i32::MAX,
    ensures
        r[0] == rect[0],
        r[1] == rect[1],
        r[2] == rect[2] - rect[0],
        r[3] == rect[3] - rect[1],
{
    [rect[0], rect[1], rect[2] - rect[0], rect[3] - rect[1]]
}

pub open spec fn clamp_u16(v: int) -> int {
    if v < 0 {
        0
    } else if v > u16::MAX {
        u16::MAX as int
    } else {
        v
    }
}

/// The visible area of a window from its frame bounds `[left, top, right,
/// bottom]`, its size bounded to what `u16` holds.
pub fn get_visible_area(frame: [i32; 4]) -> (a: Area)
    requires
        i32::MIN <= frame[2] - frame[0] <= i32::MAX,
        i32::MIN <= frame[3] - frame[1] <= i32::MAX,
    ensures
        a.x == frame[0],
        a.y == frame[1],
        a.width == clamp_u16(frame[2] - frame[0]),
        a.height == clamp_u16(frame[3] - frame[1]),
{
    let w = frame[2] - frame[0];
    let h = frame[3] - frame[1];
    let w16: u16 = if w < 0 {
        0
    } else if w > 0xffff {
        0xffff
    } else {
        w as u16
    };
    let h16: u16 = if h < 0 {
        0
    } else if h > 0xffff {
        0xffff
    } else {
        h as u16
    };
    Area::new(frame[0], frame[1], w16, h16)
}

/// The invisible borders of a window: how far its visible area lies inside
/// its area on the left, top, right and bottom.
pub fn get_borders(area: Area, visible: Area) -> (r: (i32, i32, i32, i32))
    requires
        i32::MIN <= visible.x - area.x <= i32::MAX,
        i32::MIN <= visible.y - area.y <= i32::MAX,
        i32::MIN <= (area.width - visible.width) - (visible.x - area.x) <= i32::MAX,
        i32::MIN <= (area.height - visible.height) - (visible.y - area.y) <= i32::MAX,
    ensures
        r.0 == visible.x - area.x,
        r.1 == visible.y - area.y,
        r.2 == (area.width - visible.width) - (visible.x - area.x),
        r.3 == (area.height - visible.height) - (visible.y - area.y),
{
    let l = visible.x - area.x;
    let t = visible.y - area.y;
    (l, t, (area.width as i32 - visible.width as i32) - l, (area.height as i32 - visible.height as i32) - t)
}

/// A window covers its monitor exactly: its rectangle is that of the
/// monitor, both as `[left, top, right, bottom]`.
pub fn is_fullscreen(window_rect: [i32; 4], monitor_rect: [i32; 4]) -> (r: bool)
    ensures
        r == (window_rect@ == monitor_rect@),
{
    let same = window_rect[0] == monitor_rect[0] && window_rect[1] == monitor_rect[1]
        && window_rect[2] == monitor_rect[2] && window_rect[3] == monitor_rect[3];
    assert(same ==> window_rect@ =~= monitor_rect@);
    same
}

} // verus!
