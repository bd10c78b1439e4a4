//! Frame-cycling animations over source rectangles of a sprite sheet.

use vstd::prelude::*;
use crate::geometry::Rect;
use crate::timer::{Timer, MAX_DURATION};

verus! {

/// Microseconds each frame is shown.
pub const ANIMATION_THRESHOLD: u64 = 70_000;

/// An ordered list of frames and the index of the one shown.
#[derive(Debug)]
pub struct Frames {
    pub list: Vec<Rect>,
    pub act: usize,
    pub should_loop: bool,
}

impl Frames {
    pub open spec fn wf(&self) -> bool {
        self.list@.len() > 0 && self.act < self.list@.len()
    }

    /// The index shown after one more frame: circular when looping, held at
    /// the last frame otherwise.
    pub open spec fn next_index(&self) -> int {
        if self.should_loop {
            (self.act + 1) % (self.list@.len() as int)
        } else if self.act + 1 < self.list@.len() {
            self.act + 1
        } else {
            self.act as int
        }
    }

    pub open spec fn finished(&self) -> bool {
        !self.should_loop && self.act == self.list@.len() - 1
    }

    pub open spec fn current(&self) -> Rect {
        self.list@[self.act as int]
    }

    pub fn new(list: Vec<Rect>, should_loop: bool) -> (r: Frames)
        requires
            list@.len() > 0,
        ensures
            r.wf(),
            r.list@ == list@,
            r.act == 0,
            r.should_loop == should_loop,
    {
        Frames { list, act: 0, should_loop }
    }

    pub fn next_frame(&mut self)
        requires
            old(self).wf(),
        ensures
            final(self).wf(),
            final(self).list@ == old(self).list@,
            final(self).should_loop == old(self).should_loop,
            final(self).act == old(self).next_index(),
    {
        let len = self.list.len();
        self.act = if self.should_loop {
            (self.act + 1) % len
        } else if self.act < len - 1 {
            self.act + 1
        } else {
            self.act
        };
    }

    pub fn act_frame(&self) -> (r: Rect)
        requires
            self.wf(),
        ensures
            r == self.current(),
    {
        self.list[self.act]
    }

    pub fn is_finished(&self) -> (r: bool)
        requires
            self.wf(),
        ensures
            r == self.finished(),
    {
        !self.should_loop && self.act == self.list.len() - 1
    }
}

/// Frames advanced by a repeating timer.
#[derive(Debug)]
pub struct Animation {
    pub frames: Frames,
    pub time: Timer,
}

impl Animation {
    pub open spec fn wf(&self) -> bool {
        self.frames.wf() && self.time.wf() && self.time.repeat
    }

    pub fn new(frames_list: Vec<Rect>, should_loop: bool) -> (r: Animation)
        requires
            frames_list@.len() > 0,
        ensures
            r.wf(),
            r.frames.list@ == frames_list@,
            r.frames.act == 0,
            r.frames.should_loop == should_loop,
            r.time == Timer::new_spec(ANIMATION_THRESHOLD),
    {
        Animation { frames: Frames::new(frames_list, should_loop), time: Timer::new(ANIMATION_THRESHOLD) }
    }

    pub fn is_finished(&self) -> (r: bool)
        requires
            self.wf(),
        ensures
            r == self.frames.finished(),
    {
        self.frames.is_finished()
    }

    pub fn get_act_frame(&self) -> (r: Rect)
        requires
            self.wf(),
        ensures
            r == self.frames.current(),
    {
        self.frames.act_frame()
    }

    /// Advances the timer; on the step that crosses its threshold the next
    /// frame is shown.
    pub fn update(&mut self, dt: u64)
        requires
            old(self).wf(),
            dt <= MAX_DURATION,
        ensures
            final(self).wf(),
            final(self).time == old(self).time.step(dt),
            final(self).frames.list@ == old(self).frames.list@,
            final(self).frames.should_loop == old(self).frames.should_loop,
            final(self).frames.act == if final(self).time.just_over {
                old(self).frames.next_index()
            } else {
                old(self).frames.act as int
            },
    {
        self.time.update(dt);
        if self.time.is_just_over() {
            self.frames.next_frame();
        }
    }
}

} // verus!
