use vstd::prelude::*;
use crate::compositor::{compose_frame, composed};
use crate::fade::{fade_step, Fade, FADE_RATE, MIX_SCALE};

verus! {

/// A captured camera frame: row-major RGB bytes and the frame's size.
pub struct Frame {
    pub pixels: Vec<u8>,
    pub width: usize,
    pub height: usize,
}

impl Frame {
    /// Whether `pixels` holds exactly `width * height` RGB pixels and the
    /// blended RGBA frame fits in memory.
    pub open spec fn is_valid(&self) -> bool {
        self.width * self.height * 4 <= usize::MAX && self.pixels@.len() == self.width
            * self.height * 3
    }
}

/// State of the camera/pattern switcher between ticks: the devices on offer,
/// the one selected, the fade, and whether a blended image has been shown yet
/// (until then the display shows a placeholder).
pub struct Switcher {
    pub device_count: usize,
    pub selected: usize,
    pub fade: Fade,
    pub showing_image: bool,
}

impl Switcher {
    pub open spec fn wf(&self) -> bool {
        self.fade.wf()
    }

    /// A switcher over `device_count` devices, on the first device, showing
    /// the camera, with no image yet.
    pub fn new(device_count: usize) -> (r: Switcher)
        ensures
            r.wf(),
            r.device_count == device_count,
            r.selected == 0,
            r.fade.current == 0,
            r.fade.target == 0,
            r.fade.carry == 0,
            !r.showing_image,
    {
        Switcher { device_count, selected: 0, fade: Fade::new(), showing_image: false }
    }

    /// The device to open at startup: the first one, if there is any.
    pub fn initial_device(&self) -> (r: Option<usize>)
        ensures
            r == if self.device_count > 0 {
                Some(0usize)
            } else {
                None
            },
    {
        if self.device_count > 0 {
            Some(0)
        } else {
            None
        }
    }

    /// Selects device `index`. Returns the device whose stream must now be
    /// opened (after closing the current one): `index` when it names a device
    /// other than the selected one, else `None` and nothing changes.
    pub fn select(&mut self, index: usize) -> (open: Option<usize>)
        requires
            old(self).wf(),
        ensures
            final(self).wf(),
            final(self).device_count == old(self).device_count,
            final(self).fade == old(self).fade,
            final(self).showing_image == old(self).showing_image,
            index < old(self).device_count && index != old(self).selected ==> open == Some(
                index,
            ) && final(self).selected == index,
            !(index < old(self).device_count && index != old(self).selected) ==> open.is_none()
                && final(self).selected == old(self).selected,
    {
        if index < self.device_count && index != self.selected {
            self.selected = index;
            Some(index)
        } else {
            None
        }
    }

    /// Starts a fade towards the camera image.
    pub fn show_camera(&mut self)
        requires
            old(self).wf(),
        ensures
            final(self).wf(),
            final(self).fade.target == 0,
            final(self).fade.current == old(self).fade.current,
            final(self).fade.carry == 0,
            final(self).device_count == old(self).device_count,
            final(self).selected == old(self).selected,
            final(self).showing_image == old(self).showing_image,
    {
        self.fade.set_target(0);
    }

    /// Starts a fade towards the pattern.
    pub fn show_pattern(&mut self)
        requires
            old(self).wf(),
        ensures
            final(self).wf(),
            final(self).fade.target == MIX_SCALE,
            final(self).fade.current == old(self).fade.current,
            final(self).fade.carry == 0,
            final(self).device_count == old(self).device_count,
            final(self).selected == old(self).selected,
            final(self).showing_image == old(self).showing_image,
    {
        self.fade.set_target(MIX_SCALE);
    }

    /// Sets the shown mix directly, clamped to `MIX_SCALE`.
    pub fn set_mix(&mut self, mix: u32)
        requires
            old(self).wf(),
        ensures
            final(self).wf(),
            final(self).fade.current == if mix <= MIX_SCALE {
                mix
            } else {
                MIX_SCALE
            },
            final(self).fade.target == old(self).fade.target,
            final(self).fade.carry == 0,
            final(self).device_count == old(self).device_count,
            final(self).selected == old(self).selected,
            final(self).showing_image == old(self).showing_image,
    {
        self.fade.set_current(mix);
    }

    /// One tick of `dt_us` microseconds, `t_ms` milliseconds after start: the
    /// fade advances, then the captured `frame`, if any, is blended with the
    /// pattern under the new mix. Returns the image to display; `None` keeps
    /// the previous one (no frame, or one of the wrong size).
    pub fn tick(&mut self, dt_us: u32, frame: Option<&Frame>, t_ms: u64) -> (r: Option<Vec<u8>>)
        requires
            old(self).wf(),
        ensures
            final(self).wf(),
            final(self).device_count == old(self).device_count,
            final(self).selected == old(self).selected,
            final(self).fade.target == old(self).fade.target,
            (final(self).fade.current as int, final(self).fade.carry as int) == fade_step(
                old(self).fade.current as int,
                old(self).fade.target as int,
                old(self).fade.carry as int,
                dt_us * FADE_RATE,
            ),
            final(self).showing_image == (old(self).showing_image || r.is_some()),
            frame.is_none() ==> r.is_none(),
            frame matches Some(f) ==> (r.is_some() <==> f.is_valid()),
            frame matches Some(f) ==> (r matches Some(out) ==> out@ == composed(
                f.pixels@,
                f.width as int,
                f.height as int,
                t_ms as int,
                final(self).fade.current as int,
            )),
    {
        self.fade.tick(dt_us);
        let r = match frame {
            Some(f) => compose_frame(&f.pixels, f.width, f.height, self.fade.current, t_ms),
            None => None,
        };
        if r.is_some() {
            self.showing_image = true;
        }
        r
    }
}

} // verus!
