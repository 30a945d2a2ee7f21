//! Audio settings: two volumes in percent, moved in steps of five.
use vstd::prelude::*;

verus! {

/// One step of a volume button, in percent.
pub const VOLUME_STEP: u32 = 5;

/// Sound-effect and music volumes, in percent (0 to 100).
#[derive(Clone, Copy, Debug, PartialEq, Eq, Structural)]
pub struct Settings {
    pub sfx_volume: u32,
    pub music_volume: u32,
}

/// A volume one step louder, at most 100.
pub open spec fn louder(v: u32) -> u32 {
    if v + VOLUME_STEP > 100 { 100 } else { (v + VOLUME_STEP) as u32 }
}

/// A volume one step quieter, at least 0, and at most 100.
pub open spec fn quieter(v: u32) -> u32 {
    if v < VOLUME_STEP { 0 } else if v - VOLUME_STEP > 100 { 100 } else { (v - VOLUME_STEP) as u32 }
}

fn step_up(v: u32) -> (r: u32)
    ensures
        r == louder(v),
{
    if v >= 100 - VOLUME_STEP {
        100
    } else {
        v + VOLUME_STEP
    }
}

fn step_down(v: u32) -> (r: u32)
    ensures
        r == quieter(v),
{
    if v < VOLUME_STEP {
        0
    } else if v - VOLUME_STEP > 100 {
        100
    } else {
        v - VOLUME_STEP
    }
}

impl Settings {
    /// Both volumes at full.
    pub fn new() -> (r: Settings)
        ensures
            r == (Settings { sfx_volume: 100, music_volume: 100 }),
    {
        Settings { sfx_volume: 100, music_volume: 100 }
    }

    /// The playback level of a sound effect whose own level is `default`
    /// (in thousandths): scaled by the effects volume.
    pub fn sfx_level(&self, default: u32) -> (r: u64)
        ensures
            r == self.sfx_volume * default / 100,
    {
        let v = self.sfx_volume as u64;
        let d = default as u64;
        assert(v * d <= 4_294_967_295 * 4_294_967_295) by (nonlinear_arith)
            requires
                v <= 4_294_967_295,
                d <= 4_294_967_295,
        ;
        v * d / 100
    }

    /// The playback level of a music track whose own level is `default` (in
    /// thousandths): scaled by the music volume.
    pub fn music_level(&self, default: u32) -> (r: u64)
        ensures
            r == self.music_volume * default / 100,
    {
        let v = self.music_volume as u64;
        let d = default as u64;
        assert(v * d <= 4_294_967_295 * 4_294_967_295) by (nonlinear_arith)
            requires
                v <= 4_294_967_295,
                d <= 4_294_967_295,
        ;
        v * d / 100
    }

    pub fn add_music(&mut self)
        ensures
            *final(self) == (Settings { music_volume: louder(old(self).music_volume), ..*old(self) }),
    {
        self.music_volume = step_up(self.music_volume);
    }

    pub fn sub_music(&mut self)
        ensures
            *final(self) == (Settings { music_volume: quieter(old(self).music_volume), ..*old(self) }),
    {
        self.music_volume = step_down(self.music_volume);
    }

    pub fn add_sfx(&mut self)
        ensures
            *final(self) == (Settings { sfx_volume: louder(old(self).sfx_volume), ..*old(self) }),
    {
        self.sfx_volume = step_up(self.sfx_volume);
    }

    pub fn sub_sfx(&mut self)
        ensures
            *final(self) == (Settings { sfx_volume: quieter(old(self).sfx_volume), ..*old(self) }),
    {
        self.sfx_volume = step_down(self.sfx_volume);
    }
}

} // verus!
