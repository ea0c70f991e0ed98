//! Accumulated raw mouse motion.
//!
//! Independent of camera tracking: once per frame the raw motion-delta
//! notifications reported by the host since the previous frame are summed
//! into a single process-wide delta.  A frame with no notifications yields
//! the zero delta.

use vstd::prelude::*;

use crate::geometry::in_i64;

verus! {

/// One raw motion-delta notification from the input device.
#[derive(Clone, Copy, Debug, PartialEq, Eq, Structural)]
pub struct MotionDelta {
    pub x: i64,
    pub y: i64,
}

/// The accumulated mouse motion over the most recent frame.
#[derive(Clone, Copy, Debug, PartialEq, Eq, Structural)]
pub struct MouseMotion {
    pub delta: MotionDelta,
}

/// Holds the accumulated motion delta and recomputes it once per frame.
#[derive(Clone, Copy, Debug, PartialEq, Eq, Structural)]
pub struct MouseMotionPlugin {
    pub motion: MouseMotion,
}

/// The sum of the x components of a sequence of motion deltas.
pub open spec fn sum_dx(s: Seq<MotionDelta>) -> int
    decreases s.len(),
{
    if s.len() == 0 {
        0
    } else {
        sum_dx(s.drop_last()) + s.last().x
    }
}

/// The sum of the y components of a sequence of motion deltas.
pub open spec fn sum_dy(s: Seq<MotionDelta>) -> int
    decreases s.len(),
{
    if s.len() == 0 {
        0
    } else {
        sum_dy(s.drop_last()) + s.last().y
    }
}

/// Whether every partial sum of the deltas, taken in arrival order, stays in
/// `i64` range.  This is the machine-size precondition of
/// [`MouseMotionPlugin::update_mouse_motion`].
pub open spec fn motion_sums_fit(s: Seq<MotionDelta>) -> bool {
    forall|k: int|
        0 <= k <= s.len() ==> in_i64(sum_dx(#[trigger] s.take(k))) && in_i64(sum_dy(s.take(k)))
}

impl MouseMotionPlugin {
    /// A fresh motion tracker, with the accumulated delta at zero.
    pub fn new() -> (r: MouseMotionPlugin)
        ensures
            r.motion.delta == (MotionDelta { x: 0, y: 0 }),
    {
        MouseMotionPlugin { motion: MouseMotion { delta: MotionDelta { x: 0, y: 0 } } }
    }

    /// Replaces the accumulated delta with the sum of this frame's raw
    /// motion notifications; a frame with no notifications yields zero.
    pub fn update_mouse_motion(&mut self, events: &Vec<MotionDelta>)
        requires
            motion_sums_fit(events@),
        ensures
            final(self).motion.delta.x == sum_dx(events@),
            final(self).motion.delta.y == sum_dy(events@),
    {
        let mut dx: i64 = 0;
        let mut dy: i64 = 0;
        let mut i: usize = 0;
        assert(events@.take(0) =~= Seq::<MotionDelta>::empty());
        while i < events.len()
            invariant
                0 <= i <= events@.len(),
                motion_sums_fit(events@),
                dx == sum_dx(events@.take(i as int)),
                dy == sum_dy(events@.take(i as int)),
            decreases events@.len() - i,
        {
            let e = events[i];
            proof {
                let pre = events@.take(i as int);
                let post = events@.take(i + 1);
                assert(post.drop_last() =~= pre);
                assert(post.last() == events@[i as int]);
                assert(sum_dx(post) == sum_dx(pre) + e.x);
                assert(sum_dy(post) == sum_dy(pre) + e.y);
                assert(in_i64(sum_dx(post)) && in_i64(sum_dy(post)));
            }
            dx = dx + e.x;
            dy = dy + e.y;
            i = i + 1;
        }
        assert(events@.take(events@.len() as int) =~= events@);
        self.motion = MouseMotion { delta: MotionDelta { x: dx, y: dy } };
    }
}

} // verus!
