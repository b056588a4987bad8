//! The idle-time frame cache: its state machine (pause, resume, publish, take), the display
//! it captures, and the pixel conversion that prepares a frame for the overlay.

use crate::desktop_shell::{
    largest_display, lemma_largest_in_range, resolve_capture_target, CaptureTarget, DisplayBounds,
};
use vstd::prelude::*;

verus! {

/// One XRGB pixel from its channels.
pub open spec fn xrgb(r: u8, g: u8, b: u8) -> u32 {
    (r as int * 65536 + g as int * 256 + b as int) as u32
}

/// The dimmed overlay background: each channel at eleven twentieths.
pub open spec fn dimmed_xrgb(r: u8, g: u8, b: u8) -> u32 {
    ((r as int * 11 / 20) * 65536 + (g as int * 11 / 20) * 256 + (b as int * 11 / 20)) as u32
}

/// The XRGB pixels of RGBA bytes (a trailing partial pixel is ignored).
pub open spec fn xrgb_pixels(bytes: Seq<u8>) -> Seq<u32> {
    Seq::new(bytes.len() / 4, |i: int| xrgb(bytes[4 * i], bytes[4 * i + 1], bytes[4 * i + 2]))
}

pub open spec fn dimmed_pixels(bytes: Seq<u8>) -> Seq<u32> {
    Seq::new(
        bytes.len() / 4,
        |i: int| dimmed_xrgb(bytes[4 * i], bytes[4 * i + 1], bytes[4 * i + 2]),
    )
}

/// RGBA bytes to XRGB pixels, in one pass, with their dimmed copy.
pub fn rgba_to_xrgb_and_dim(bytes: &[u8]) -> (out: (Vec<u32>, Vec<u32>))
    ensures
        out.0@ == xrgb_pixels(bytes@),
        out.1@ == dimmed_pixels(bytes@),
{
    let n = bytes.len() / 4;
    let mut base: Vec<u32> = Vec::new();
    let mut dimmed: Vec<u32> = Vec::new();
    let mut i: usize = 0;
    while i < n
        invariant
            n == bytes@.len() / 4,
            bytes@.len() <= usize::MAX,
            i <= n,
            base@ == xrgb_pixels(bytes@).subrange(0, i as int),
            dimmed@ == dimmed_pixels(bytes@).subrange(0, i as int),
        decreases n - i,
    {
        assert(4 * i + 3 < bytes@.len());
        let r = bytes[4 * i] as u32;
        let g = bytes[4 * i + 1] as u32;
        let b = bytes[4 * i + 2] as u32;
        base.push(r * 65536 + g * 256 + b);
        dimmed.push((r * 11 / 20) * 65536 + (g * 11 / 20) * 256 + b * 11 / 20);
        assert(base@ =~= xrgb_pixels(bytes@).subrange(0, i + 1));
        assert(dimmed@ =~= dimmed_pixels(bytes@).subrange(0, i + 1));
        i += 1;
    }
    assert(xrgb_pixels(bytes@).subrange(0, n as int) =~= xrgb_pixels(bytes@));
    assert(dimmed_pixels(bytes@).subrange(0, n as int) =~= dimmed_pixels(bytes@));
    (base, dimmed)
}

/// RGBA bytes to XRGB pixels.
pub fn rgba_to_xrgb(bytes: &[u8]) -> (out: Vec<u32>)
    ensures
        out@ == xrgb_pixels(bytes@),
{
    let n = bytes.len() / 4;
    let mut out: Vec<u32> = Vec::new();
    let mut i: usize = 0;
    while i < n
        invariant
            n == bytes@.len() / 4,
            bytes@.len() <= usize::MAX,
            i <= n,
            out@ == xrgb_pixels(bytes@).subrange(0, i as int),
        decreases n - i,
    {
        assert(4 * i + 3 < bytes@.len());
        let r = bytes[4 * i] as u32;
        let g = bytes[4 * i + 1] as u32;
        let b = bytes[4 * i + 2] as u32;
        out.push(r * 65536 + g * 256 + b);
        assert(out@ =~= xrgb_pixels(bytes@).subrange(0, i + 1));
        i += 1;
    }
    assert(xrgb_pixels(bytes@).subrange(0, n as int) =~= xrgb_pixels(bytes@));
    out
}

/// What the frame cache holds: the latest frame, whether capturing is paused, and a
/// generation that every pause and resume moves on, so that a capture started before either
/// cannot be published after it.
pub struct CacheState<F> {
    pub latest: Option<F>,
    pub paused: bool,
    pub generation: u64,
}

/// The generation after a pause or a resume.
pub open spec fn next_generation(g: u64) -> u64 {
    if g == u64::MAX {
        0
    } else {
        (g + 1) as u64
    }
}

impl<F> CacheState<F> {
    pub fn new() -> (s: CacheState<F>)
        ensures
            s.latest is None,
            !s.paused,
            s.generation == 0,
    {
        CacheState { latest: None, paused: false, generation: 0 }
    }

    /// Stops capturing and drops the cached frame; a second pause changes nothing.
    pub fn pause(&mut self)
        ensures
            old(self).paused ==> *final(self) == *old(self),
            !old(self).paused ==> final(self).paused && final(self).latest is None
                && final(self).generation == next_generation(old(self).generation),
    {
        if self.paused {
            return;
        }
        self.paused = true;
        self.generation = self.generation.wrapping_add(1);
        self.latest = None;
    }

    /// Starts capturing again; resuming a running cache changes nothing.
    pub fn resume(&mut self)
        ensures
            !old(self).paused ==> *final(self) == *old(self),
            old(self).paused ==> !final(self).paused && final(self).latest == old(self).latest
                && final(self).generation == next_generation(old(self).generation),
    {
        if !self.paused {
            return;
        }
        self.paused = false;
        self.generation = self.generation.wrapping_add(1);
    }

    pub fn is_ready(&self) -> (b: bool)
        ensures
            b == self.latest is Some,
    {
        self.latest.is_some()
    }

    /// Publishes a frame captured in `generation`: only while running and only if nothing
    /// paused or resumed the cache since.
    pub fn publish_if_active(&mut self, generation: u64, frame: F) -> (published: bool)
        ensures
            published == (!old(self).paused && old(self).generation == generation),
            published ==> final(self).latest == Some(frame) && final(self).paused == old(
                self,
            ).paused && final(self).generation == old(self).generation,
            !published ==> *final(self) == *old(self),
    {
        if self.paused || self.generation != generation {
            return false;
        }
        self.latest = Some(frame);
        true
    }

    /// Hands the cached frame over, emptying the slot.
    pub fn take_any(&mut self) -> (frame: Option<F>)
        ensures
            frame == old(self).latest,
            final(self).latest is None,
            final(self).paused == old(self).paused,
            final(self).generation == old(self).generation,
    {
        self.latest.take()
    }

    /// Hands the cached frame over when the caller found it fresh enough.
    pub fn take_if_fresh(&mut self, fresh: bool) -> (frame: Option<F>)
        ensures
            fresh ==> frame == old(self).latest && final(self).latest is None,
            !fresh ==> frame is None && final(self).latest == old(self).latest,
            final(self).paused == old(self).paused,
            final(self).generation == old(self).generation,
    {
        if fresh {
            self.latest.take()
        } else {
            None
        }
    }
}

/// A capture started while the cache ran is never published after a pause, not even once the
/// cache has resumed: pausing and resuming each move the generation on, and two moves never
/// come back to the start.
pub proof fn pause_rejects_earlier_captures(generation: u64)
    ensures
        next_generation(generation) != generation,
        next_generation(next_generation(generation)) != generation,
{
}

/// The display the frame cache captures: the one with the largest area (the last of equals),
/// or none where there is no display.
pub fn pick_display(displays: &Vec<DisplayBounds>) -> (d: Option<DisplayBounds>)
    ensures
        displays@.len() == 0 ==> d is None,
        displays@.len() > 0 ==> d is Some && d->0.id@ == displays@[largest_display(
            displays@,
            displays@.len() as int,
        )].id@ && d->0.bounds == displays@[largest_display(displays@, displays@.len() as int)].bounds,
{
    if displays.len() == 0 {
        return None;
    }
    match resolve_capture_target(displays, &CaptureTarget::DefaultLargest) {
        Ok(k) => {
            proof {
                lemma_largest_in_range(displays@, displays@.len() as int);
            }
            let id = displays[k].id.clone();
            Some(DisplayBounds { id, bounds: displays[k].bounds })
        },
        Err(_) => None,
    }
}

} // verus!
