//! Frame sequencing of an actor's or the ball's sprite.
use vstd::prelude::*;

verus! {

/// A sequence of sprite frames played in a loop, or once.
pub struct Animation {
    pub act_frame_index: usize,
    pub sprite_indexes: Vec<usize>,
    pub looping: bool,
    pub finished: bool,
}

impl Animation {
    /// The frame index points into a non-empty list of frames.
    pub open spec fn wf(&self) -> bool {
        &&& self.sprite_indexes@.len() > 0
        &&& self.act_frame_index < self.sprite_indexes@.len()
    }

    /// A looping animation over `sprite_indexes`, at its first frame.
    pub fn new(sprite_indexes: Vec<usize>) -> (r: Animation)
        requires
            sprite_indexes@.len() > 0,
        ensures
            r.wf(),
            r.act_frame_index == 0,
            r.sprite_indexes@ == sprite_indexes@,
            r.looping,
            !r.finished,
    {
        Animation { act_frame_index: 0, sprite_indexes, looping: true, finished: false }
    }

    /// Starts another sequence of frames from its first frame.
    pub fn update_sprites_indexes(&mut self, sprite_indexes: Vec<usize>, looping: bool)
        requires
            sprite_indexes@.len() > 0,
        ensures
            final(self).wf(),
            final(self).act_frame_index == 0,
            final(self).sprite_indexes@ == sprite_indexes@,
            final(self).looping == looping,
            !final(self).finished,
    {
        self.act_frame_index = 0;
        self.sprite_indexes = sprite_indexes;
        self.looping = looping;
        self.finished = false;
    }

    /// Advances by one frame: a loop wraps around, a single run stops at its
    /// last frame and is then finished.
    pub fn update(&mut self)
        requires
            old(self).wf(),
        ensures
            final(self).wf(),
            final(self).sprite_indexes@ == old(self).sprite_indexes@,
            final(self).looping == old(self).looping,
            old(self).finished ==> *final(self) == *old(self),
            !old(self).finished && old(self).looping ==> {
                &&& final(self).act_frame_index == (old(self).act_frame_index + 1)
                    % (old(self).sprite_indexes@.len() as int)
                &&& !final(self).finished
            },
            !old(self).finished && !old(self).looping ==> {
                let last = old(self).sprite_indexes@.len() - 1;
                let next = if old(self).act_frame_index + 1 < last {
                    old(self).act_frame_index + 1
                } else {
                    last
                };
                &&& final(self).act_frame_index == next
                &&& final(self).finished == (next == last)
            },
    {
        if self.finished {
            return;
        }
        let len = self.sprite_indexes.len();
        if self.looping {
            self.act_frame_index = (self.act_frame_index + 1) % len;
        } else {
            let next = if self.act_frame_index + 1 < len - 1 {
                self.act_frame_index + 1
            } else {
                len - 1
            };
            self.finished = next == len - 1;
            self.act_frame_index = next;
        }
    }

    /// The frame to show now.
    pub fn get_sprite_index(&self) -> (r: u32)
        requires
            self.wf(),
            self.sprite_indexes@[self.act_frame_index as int] <= u32::MAX,
        ensures
            r == self.sprite_indexes@[self.act_frame_index as int],
    {
        self.sprite_indexes[self.act_frame_index] as u32
    }
}

} // verus!
