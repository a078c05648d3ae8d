use vstd::prelude::*;

use crate::geometry::Area;
use crate::window::WindowRef;
use crate::window_map::WindowMap;

verus! {

/// Easing curve of the animation that moves windows to their new place.
#[derive(Clone, Copy, Debug, PartialEq, Eq, Structural)]
pub enum WindowAnimation {
    Linear,
    EaseIn,
    EaseInSine,
    EaseInQuad,
    EaseInCubic,
    EaseInQuart,
    EaseInQuint,
    EaseInExpo,
    EaseInCirc,
    EaseInBack,
    EaseInElastic,
    EaseInBounce,
    EaseOut,
    EaseOutSine,
    EaseOutQuad,
    EaseOutCubic,
    EaseOutQuart,
    EaseOutQuint,
    EaseOutExpo,
    EaseOutCirc,
    EaseOutBack,
    EaseOutElastic,
    EaseOutBounce,
    EaseInOut,
    EaseInOutSine,
    EaseInOutQuad,
    EaseInOutCubic,
    EaseInOutQuart,
    EaseInOutQuint,
    EaseInOutExpo,
    EaseInOutCirc,
    EaseInOutBack,
    EaseInOutElastic,
    EaseInOutBounce,
}

impl Default for WindowAnimation {
    fn default() -> (r: Self)
        ensures
            r == WindowAnimation::Linear,
    {
        WindowAnimation::Linear
    }
}

/// Where a queued window is to be moved, and whether it stays on top.
#[derive(Clone, Copy, Debug, PartialEq, Eq, Structural)]
pub struct WindowAnimationQueueInfo {
    pub target_area: Area,
    pub topmost: bool,
}

impl WindowAnimationQueueInfo {
    pub fn new(new_area: Area, topmost: bool) -> (i: Self)
        ensures
            i.target_area == new_area,
            i.topmost == topmost,
    {
        WindowAnimationQueueInfo { target_area: new_area, topmost }
    }
}

/// How windows are animated: the easing curve (none for no animation),
/// the duration in milliseconds and the frames per second.
#[derive(Clone, Copy, Debug, PartialEq, Eq, Structural)]
pub struct AnimationsConfig {
    pub animation_type: Option<WindowAnimation>,
    pub duration: u32,
    pub framerate: u8,
}

/// The moves of an animation: each queued window whose current area is
/// known (`areas`, by position in `queued`) and is not its target already,
/// with that area and the target, in the order of the queue.
pub open spec fn spec_animation_moves(
    queued: Seq<(WindowRef, WindowAnimationQueueInfo)>,
    areas: Seq<Option<Area>>,
) -> Seq<(WindowRef, Area, Area)>
    decreases queued.len(),
{
    if queued.len() == 0 || areas.len() == 0 {
        Seq::empty()
    } else {
        let rest = spec_animation_moves(queued.drop_last(), areas.drop_last());
        match areas.last() {
            Some(a) => if a != queued.last().1.target_area {
                rest.push((queued.last().0, a, queued.last().1.target_area))
            } else {
                rest
            },
            None => rest,
        }
    }
}

/// The windows waiting to be moved, each with where it goes.
pub struct AnimationQueue {
    windows: WindowMap<WindowAnimationQueueInfo>,
}

impl AnimationQueue {
    /// The queued windows, in the order in which they were first queued.
    pub closed spec fn queued(&self) -> Seq<(WindowRef, WindowAnimationQueueInfo)> {
        self.windows.seq()
    }

    /// Where each queued window goes.
    pub closed spec fn targets(&self) -> Map<WindowRef, WindowAnimationQueueInfo> {
        self.windows@
    }

    pub closed spec fn wf(&self) -> bool {
        self.windows.wf()
    }

    pub fn new() -> (q: AnimationQueue)
        ensures
            q.wf(),
            q.targets() == Map::<WindowRef, WindowAnimationQueueInfo>::empty(),
            q.queued() == Seq::<(WindowRef, WindowAnimationQueueInfo)>::empty(),
    {
        AnimationQueue { windows: WindowMap::new() }
    }

    /// Queues `window` to go to `new_area`, replacing where it went before.
    pub fn queue(&mut self, window: WindowRef, new_area: Area, topmost: bool)
        requires
            old(self).wf(),
        ensures
            final(self).wf(),
            final(self).targets() == old(self).targets().insert(
                window,
                WindowAnimationQueueInfo { target_area: new_area, topmost },
            ),
    {
        self.windows.insert(window, WindowAnimationQueueInfo::new(new_area, topmost));
    }

    /// No longer moves `window`.
    pub fn dequeue(&mut self, window: WindowRef)
        requires
            old(self).wf(),
        ensures
            final(self).wf(),
            final(self).targets() == old(self).targets().remove(window),
    {
        self.windows.remove(&window);
    }

    /// Forgets every queued window.
    pub fn clear(&mut self)
        ensures
            final(self).wf(),
            final(self).targets() == Map::<WindowRef, WindowAnimationQueueInfo>::empty(),
            final(self).queued() == Seq::<(WindowRef, WindowAnimationQueueInfo)>::empty(),
    {
        self.windows = WindowMap::new();
    }

    /// Whether `window` is queued.
    pub fn contains(&self, window: WindowRef) -> (b: bool)
        requires
            self.wf(),
        ensures
            b == self.targets().contains_key(window),
    {
        self.windows.contains_key(&window)
    }

    /// The queued windows in order, for their current areas to be read.
    pub fn windows(&self) -> (r: Vec<WindowRef>)
        requires
            self.wf(),
        ensures
            r@.len() == self.queued().len(),
            forall|i: int| 0 <= i < r@.len() ==> r@[i] == self.queued()[i].0,
    {
        self.windows.keys()
    }

    /// The moves to animate, given the current area of each queued window
    /// (in the order of `windows`), if known.
    pub fn animation_moves(&self, areas: &Vec<Option<Area>>) -> (r: Vec<(WindowRef, Area, Area)>)
        requires
            self.wf(),
            areas@.len() == self.queued().len(),
        ensures
            r@ == spec_animation_moves(self.queued(), areas@),
    {
        let mut r: Vec<(WindowRef, Area, Area)> = Vec::new();
        let n = self.windows.len();
        for i in 0..n
            invariant
                n == self.queued().len(),
                areas@.len() == n,
                self.wf(),
                r@ == spec_animation_moves(self.queued().take(i as int), areas@.take(i as int)),
        {
            let (w, info) = self.windows.entry(i);
            proof {
                let q = self.queued().take(i + 1);
                let a = areas@.take(i + 1);
                assert(q.drop_last() =~= self.queued().take(i as int));
                assert(a.drop_last() =~= areas@.take(i as int));
                assert(q.last() == self.queued()[i as int]);
                assert(a.last() == areas@[i as int]);
            }
            match areas[i] {
                Some(a) => {
                    if a != info.target_area {
                        r.push((w, a, info.target_area));
                    }
                },
                None => {},
            }
        }
        assert(self.queued().take(n as int) =~= self.queued());
        assert(areas@.take(n as int) =~= areas@);
        r
    }
}

/// Milliseconds between two frames of an animation at `framerate` frames
/// per second.
pub fn frame_duration_ms(framerate: u8) -> (ms: u64)
    requires
        framerate > 0,
    ensures
        ms == 1000int / (framerate as int),
{
    1000 / (framerate as u64)
}

} // verus!
