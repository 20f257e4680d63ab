//! What the frame loop of a viewer decides: which frames are simulated, and
//! by how much time.
use vstd::prelude::*;
use crate::scalar::Scalar;

verus! {

/// What to do with a frame that has just been drawn.
#[derive(Clone, Copy, Debug, PartialEq)]
pub struct FramePlan<S> {
    /// The number of the frame, counted from zero: an image of the frame is
    /// kept under this number.
    pub image: usize,
    /// The real seconds by which the scene is to be advanced, or `None` where
    /// the loop ends with this frame.
    pub update: Option<S>,
}

/// The frame loop between two frames.
pub struct FrameLoop<S> {
    frames: usize,
    frame_limit: Option<usize>,
    force_sim_fps: Option<S>,
}

/// The number of frames drawn, once one more is drawn after `frames`.
pub open spec fn one_more(frames: usize) -> usize {
    if frames < usize::MAX {
        (frames + 1) as usize
    } else {
        frames
    }
}

/// The real seconds that a frame stands for: the time that has gone by
/// since the frame before it, or one over the frame rate where one is forced.
pub open spec fn frame_seconds<S: Scalar>(force_sim_fps: Option<S>, elapsed: S) -> S {
    match force_sim_fps {
        Some(fps) => S::of_count(1).quotient(fps),
        None => elapsed,
    }
}

impl<S: Scalar> FrameLoop<S> {
    /// The number of frames drawn so far.
    pub closed spec fn drawn(&self) -> usize {
        self.frames
    }

    /// The number of frames after which the loop ends, if it ever does.
    pub closed spec fn limit(&self) -> Option<usize> {
        self.frame_limit
    }

    /// The frame rate that the simulation is made to believe in, if any.
    pub closed spec fn forced_fps(&self) -> Option<S> {
        self.force_sim_fps
    }

    /// A loop that has drawn no frame yet.
    pub fn new(frame_limit: Option<usize>, force_sim_fps: Option<S>) -> (r: Self)
        ensures
            r.drawn() == 0,
            r.limit() == frame_limit,
            r.forced_fps() == force_sim_fps,
    {
        FrameLoop { frames: 0, frame_limit, force_sim_fps }
    }

    /// The number of frames drawn so far.
    pub fn frames(&self) -> (r: usize)
        ensures
            r == self.drawn(),
    {
        self.frames
    }

    /// Takes note of a frame that has just been drawn, `elapsed` real seconds
    /// after the one before it.
    ///
    /// The loop ends with the frame that brings the number of frames drawn
    /// up to the limit. Every other frame advances the scene.
    pub fn next(&mut self, elapsed: S) -> (r: FramePlan<S>)
        ensures
            final(self).drawn() == one_more(old(self).drawn()),
            final(self).limit() == old(self).limit(),
            final(self).forced_fps() == old(self).forced_fps(),
            r.image == old(self).drawn(),
            r.update == match old(self).limit() {
                Some(limit) if one_more(old(self).drawn()) >= limit => None,
                _ => Some(frame_seconds(old(self).forced_fps(), elapsed)),
            },
    {
        let image: usize = self.frames;
        if self.frames < usize::MAX {
            self.frames = self.frames + 1;
        }
        let seconds = match self.force_sim_fps {
            Some(fps) => S::from_usize(1).div(fps),
            None => elapsed,
        };
        let update = match self.frame_limit {
            Some(limit) => if self.frames >= limit {
                None
            } else {
                Some(seconds)
            },
            None => Some(seconds),
        };
        FramePlan { image, update }
    }
}

} // verus!
