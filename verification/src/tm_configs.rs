use vstd::prelude::*;

use crate::animation::WindowAnimation;

verus! {

/// Paddings and animation settings of the tiles manager, with one padding
/// for all monitors.
#[derive(Debug, Default)]
pub struct TilesManagerConfig {
    tiles_padding: i8,
    border_padding: i8,
    focalized_padding: i8,
    insert_in_monitor: bool,
    animations_duration: u32,
    animations_framerate: u8,
    animation_type: Option<WindowAnimation>,
}

impl TilesManagerConfig {
    pub closed spec fn spec_tiles_padding(&self) -> i8 {
        self.tiles_padding
    }

    pub closed spec fn spec_border_padding(&self) -> i8 {
        self.border_padding
    }

    pub closed spec fn spec_focalized_padding(&self) -> i8 {
        self.focalized_padding
    }

    pub closed spec fn spec_insert_in_monitor(&self) -> bool {
        self.insert_in_monitor
    }

    pub closed spec fn spec_animations_duration(&self) -> u32 {
        self.animations_duration
    }

    pub closed spec fn spec_animations_framerate(&self) -> u8 {
        self.animations_framerate
    }

    pub closed spec fn spec_animation_type(&self) -> Option<WindowAnimation> {
        self.animation_type
    }

    /// Paddings must fit in `i8` and the framerate must be positive.
    pub fn new(
        tiles_padding: u8,
        border_padding: u8,
        focalized_padding: u8,
        insert_in_monitor: bool,
        animations_duration: u32,
        animations_framerate: u8,
        animation_type: Option<WindowAnimation>,
    ) -> (c: Self)
        requires
            tiles_padding <= i8::MAX,
            border_padding <= i8::MAX,
            focalized_padding <= i8::MAX,
            animations_framerate > 0,
        ensures
            c.spec_tiles_padding() == tiles_padding,
            c.spec_border_padding() == border_padding,
            c.spec_focalized_padding() == focalized_padding,
            c.spec_insert_in_monitor() == insert_in_monitor,
            c.spec_animations_duration() == animations_duration,
            c.spec_animations_framerate() == animations_framerate,
            c.spec_animation_type() == animation_type,
            c.wf(),
    {
        Self {
            tiles_padding: tiles_padding as i8,
            border_padding: border_padding as i8,
            focalized_padding: focalized_padding as i8,
            insert_in_monitor,
            animations_duration,
            animations_framerate,
            animation_type,
        }
    }

    /// Paddings are not negative.
    pub closed spec fn wf(&self) -> bool {
        self.tiles_padding >= 0 && self.border_padding >= 0 && self.focalized_padding >= 0
    }

    pub fn get_focalized_pad(&self) -> (r: i16)
        ensures
            r == self.spec_focalized_padding(),
    {
        self.focalized_padding as i16
    }

    /// The padding at the borders of a monitor, net of the tiles padding.
    pub fn get_border_pad(&self) -> (r: i16)
        requires
            self.wf(),
        ensures
            r == self.spec_border_padding() - self.spec_tiles_padding(),
    {
        (self.border_padding - self.tiles_padding) as i16
    }

    pub fn get_tile_pady(&self) -> (r: i16)
        ensures
            r == self.spec_tiles_padding(),
    {
        self.tiles_padding as i16
    }

    pub fn get_tile_padx(&self) -> (r: i16)
        ensures
            r == self.spec_tiles_padding(),
    {
        self.tiles_padding as i16
    }

    pub fn get_tile_pad_xy(&self) -> (r: (i16, i16))
        ensures
            r.0 == self.spec_tiles_padding(),
            r.1 == self.spec_tiles_padding(),
    {
        (self.get_tile_padx(), self.get_tile_pady())
    }

    /// Whether a window dropped on another monitor is inserted there;
    /// `inverted` asks for the opposite of the setting.
    pub fn is_insert_in_monitor(&self, inverted: bool) -> (b: bool)
        ensures
            b == (self.spec_insert_in_monitor() != inverted),
    {
        match inverted {
            true => !self.insert_in_monitor,
            false => self.insert_in_monitor,
        }
    }

    pub fn get_animations(&self) -> (r: Option<WindowAnimation>)
        ensures
            r == self.spec_animation_type(),
    {
        self.animation_type
    }

    pub fn get_animation_duration(&self) -> (r: u32)
        ensures
            r == self.spec_animations_duration(),
    {
        self.animations_duration
    }

    pub fn get_framerate(&self) -> (r: u8)
        ensures
            r == self.spec_animations_framerate(),
    {
        self.animations_framerate
    }
}

} // verus!
