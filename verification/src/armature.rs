//! Skeletal-animation playback: binding an animation to a skeleton,
//! advancing play time, and sampling each joint's pose.
//!
//! Play time is a fixed-point scalar: [`TIME_SCALE`] units make one frame.
//! Sampling decides, exactly, which frame (or pair of frames and blend
//! fraction) poses each joint; turning the chosen transforms into float
//! matrices is the renderer's concern, outside this crate.

use vstd::prelude::*;

use crate::model::{Animation, Joint, Mat4, Transform};

verus! {

/// Fixed-point play-time units per animation frame.
pub const TIME_SCALE: u64 = 65536;

/// Default playback speed: about a tenth of a frame per tick.
pub const DEFAULT_SPEED: u32 = 6554;

/// Why an animation refused to bind.
#[derive(Clone, Copy, Debug, PartialEq, Eq, Structural)]
pub enum BindError {
    /// The animation poses a different number of joints than the skeleton
    /// has (in its header or in one of its frames).
    JointCountMismatch,
    /// The animation has no frames, so no pose could ever be sampled.
    EmptyAnimation,
    /// The animation has more frames than the wire format's frame counter
    /// (a `u32`) can express.
    TooManyFrames,
}

/// The sampling decision for one joint at one instant.
#[derive(Clone, Copy, Debug, PartialEq, Eq, Structural)]
pub enum JointPose {
    /// No animation is bound: the joint rests in the skeleton's bind pose.
    Bind { pose: Mat4 },
    /// The play time sits in the last frame: that frame's transform,
    /// verbatim, with no extrapolation past the end.
    Exact { pose: Transform },
    /// The play time sits between two frames: interpolate from `from` to
    /// `to` with blend fraction `t / TIME_SCALE`.
    Blend { from: Transform, to: Transform, t: u32 },
}

/// Playback state of one animated object: the skeleton it deforms, the
/// bound animation, the play time and the speed.
pub struct Armature {
    /// The skeleton (bind poses and inverse-bind matrices).
    pub joints: Vec<Joint>,
    /// The bound animation, if any; `None` renders the bind pose.
    pub animation: Option<Animation>,
    /// Fixed-point play time; always under `frames * TIME_SCALE`.
    pub time: u64,
    /// Fixed-point play-time advance per tick.
    pub speed: u32,
}

impl Armature {
    /// A bound animation agrees with the skeleton: its header and every
    /// frame pose exactly one transform per joint, it has at least one
    /// frame but no more than the format can count, and the play time sits
    /// inside it.
    pub open spec fn inv(self) -> bool {
        match self.animation {
            Some(a) => {
                &&& a.joints_length == self.joints@.len()
                &&& 1 <= a.frames@.len() <= u32::MAX
                &&& forall|f: int|
                    0 <= f < a.frames@.len() ==> (#[trigger] a.frames@[f])@.len()
                        == a.joints_length
                &&& (self.time as nat) < a.frames@.len() * (TIME_SCALE as nat)
            },
            None => self.time == 0,
        }
    }

    /// An armature over a skeleton: unbound, at rest.
    pub fn new(joints: Vec<Joint>) -> (r: Armature)
        ensures
            r.joints@ == joints@,
            r.animation is None,
            r.time == 0,
            r.speed == DEFAULT_SPEED,
            r.inv(),
    {
        Armature { joints, animation: None, time: 0, speed: DEFAULT_SPEED }
    }

    /// Number of frames of the bound animation, or 0 when none is bound.
    pub fn frames(&self) -> (r: usize)
        ensures
            r == (match self.animation {
                Some(a) => a.frames@.len(),
                None => 0,
            }),
    {
        match &self.animation {
            Some(a) => a.frames.len(),
            None => 0,
        }
    }

    /// Binds an animation, resetting play time to the start.  Fails fast,
    /// leaving the playback state untouched, when the animation's joint
    /// count (in the header or in any frame) differs from the skeleton's
    /// joint count, when it has no frames, or when it has more frames than
    /// the format's frame counter holds.
    pub fn set_animation(&mut self, animation: Animation) -> (r: Result<(), BindError>)
        requires
            old(self).inv(),
        ensures
            final(self).inv(),
            final(self).joints@ == old(self).joints@,
            final(self).speed == old(self).speed,
            match r {
                Ok(_) => {
                    &&& animation.joints_length == old(self).joints@.len()
                    &&& 1 <= animation.frames@.len() <= u32::MAX
                    &&& forall|f: int|
                        0 <= f < animation.frames@.len() ==> (#[trigger] animation.frames@[f])@
                            .len() == animation.joints_length
                    &&& final(self).animation == Some(animation)
                    &&& final(self).time == 0
                },
                Err(e) => {
                    &&& final(self).animation == old(self).animation
                    &&& final(self).time == old(self).time
                    &&& match e {
                        BindError::JointCountMismatch => animation.joints_length
                            != old(self).joints@.len() || exists|f: int|
                            0 <= f < animation.frames@.len() && (#[trigger] animation.frames@[f])@
                                .len() != animation.joints_length,
                        BindError::EmptyAnimation => animation.frames@.len() == 0,
                        BindError::TooManyFrames => animation.frames@.len() > u32::MAX,
                    }
                },
            },
    {
        if animation.joints_length != self.joints.len() {
            return Err(BindError::JointCountMismatch);
        }
        if animation.frames.len() == 0 {
            return Err(BindError::EmptyAnimation);
        }
        if animation.frames.len() > 0xffff_ffffusize {
            return Err(BindError::TooManyFrames);
        }
        let mut f: usize = 0;
        while f < animation.frames.len()
            invariant
                *self == *old(self),
                old(self).inv(),
                f <= animation.frames@.len(),
                forall|k: int|
                    0 <= k < f ==> (#[trigger] animation.frames@[k])@.len()
                        == animation.joints_length,
            decreases animation.frames@.len() - f,
        {
            if animation.frames[f].joints.len() != animation.joints_length {
                return Err(BindError::JointCountMismatch);
            }
            f = f + 1;
        }
        self.animation = Some(animation);
        self.time = 0;
        proof {
            let ghost n = animation.frames@.len();
            assert((0 as nat) < n * (TIME_SCALE as nat)) by (nonlinear_arith)
                requires
                    n >= 1,
                    TIME_SCALE == 65536,
            ;
        }
        Ok(())
    }

    /// Advances play time by the speed, wrapping to 0 at the frame-count
    /// boundary; does nothing while no animation is bound.
    pub fn update(&mut self)
        requires
            old(self).inv(),
        ensures
            final(self).inv(),
            final(self).joints@ == old(self).joints@,
            final(self).animation == old(self).animation,
            final(self).speed == old(self).speed,
            match old(self).animation {
                None => final(self).time == old(self).time,
                Some(a) => final(self).time == (if old(self).time + old(self).speed >= a.frames@
                    .len() * (TIME_SCALE as nat) {
                    0
                } else {
                    old(self).time + old(self).speed
                }),
            },
    {
        let frames = self.frames();
        if self.animation.is_some() {
            proof {
                assert((frames as nat) * (TIME_SCALE as nat) <= 0xffffffff * 65536) by (
                nonlinear_arith)
                    requires
                        0 <= (frames as nat) <= 0xffffffff,
                ;
            }
            let t = self.time + (self.speed as u64);
            if t >= (frames as u64) * TIME_SCALE {
                self.time = 0;
            } else {
                self.time = t;
            }
            proof {
                assert(0 < (frames as nat) * (TIME_SCALE as nat)) by (nonlinear_arith)
                    requires
                        frames >= 1,
                        TIME_SCALE == 65536,
                ;
            }
        }
    }

    /// The sampling decision for one joint: bind pose while unbound; the
    /// last frame verbatim when play time has reached it; otherwise a
    /// blend between the current frame and the next, weighted by the
    /// fractional part of the play time.
    pub open spec fn sample_spec(self, joint_id: int) -> JointPose {
        match self.animation {
            None => JointPose::Bind { pose: self.joints@[joint_id].tpose },
            Some(anim) => {
                let f = (self.time / TIME_SCALE) as int;
                if f == anim.frames@.len() - 1 {
                    JointPose::Exact { pose: anim.frames@[f]@[joint_id] }
                } else {
                    JointPose::Blend {
                        from: anim.frames@[f]@[joint_id],
                        to: anim.frames@[f + 1]@[joint_id],
                        t: (self.time % TIME_SCALE) as u32,
                    }
                }
            },
        }
    }

    /// Samples the pose of one joint at the current play time.
    pub fn get_joint_pose(&self, joint_id: usize) -> (r: JointPose)
        requires
            self.inv(),
            joint_id < self.joints@.len(),
        ensures
            r == self.sample_spec(joint_id as int),
    {
        match &self.animation {
            None => JointPose::Bind { pose: self.joints[joint_id].tpose },
            Some(anim) => {
                proof {
                    assert((self.time as nat) / (TIME_SCALE as nat) < anim.frames@.len()) by (
                    nonlinear_arith)
                        requires
                            (self.time as nat) < anim.frames@.len() * (TIME_SCALE as nat),
                            TIME_SCALE == 65536,
                    ;
                }
                let current_frame = (self.time / TIME_SCALE) as usize;
                let last_frame = anim.frames.len() - 1;
                if current_frame == last_frame {
                    JointPose::Exact { pose: anim.frames[current_frame].joints[joint_id].pose }
                } else {
                    JointPose::Blend {
                        from: anim.frames[current_frame].joints[joint_id].pose,
                        to: anim.frames[current_frame + 1].joints[joint_id].pose,
                        t: (self.time % TIME_SCALE) as u32,
                    }
                }
            },
        }
    }
}

/// No extrapolation past the end: whenever the play time has reached the
/// last frame of the bound animation, every joint's sample is exactly that
/// frame's transform, whatever the fractional part of the time.
pub proof fn lemma_sample_last_frame_exact(a: Armature, anim: Animation, joint_id: int)
    requires
        a.inv(),
        a.animation == Some(anim),
        a.time / TIME_SCALE == anim.frames@.len() - 1,
        0 <= joint_id < a.joints@.len(),
    ensures
        a.sample_spec(joint_id) == (JointPose::Exact {
            pose: anim.frames@[anim.frames@.len() - 1]@[joint_id],
        }),
{
}

/// Mid-frame sampling: at play time `TIME_SCALE / 2` over an animation of
/// two or more frames, every joint's sample is the blend of frame 0 and
/// frame 1 at exactly the halfway fraction.
pub proof fn lemma_sample_midpoint(a: Armature, anim: Animation, joint_id: int)
    requires
        a.inv(),
        a.animation == Some(anim),
        anim.frames@.len() >= 2,
        a.time == TIME_SCALE / 2,
        0 <= joint_id < a.joints@.len(),
    ensures
        a.sample_spec(joint_id) == (JointPose::Blend {
            from: anim.frames@[0]@[joint_id],
            to: anim.frames@[1]@[joint_id],
            t: (TIME_SCALE / 2) as u32,
        }),
{
    assert(a.time / TIME_SCALE == 0);
    assert(a.time % TIME_SCALE == TIME_SCALE / 2);
}

/// A one-frame animation is sampled exactly, always: whatever the play
/// time (it wraps before reaching the frame boundary), every joint's
/// sample is the single frame's transform.
pub proof fn lemma_sample_single_frame(a: Armature, anim: Animation, joint_id: int)
    requires
        a.inv(),
        a.animation == Some(anim),
        anim.frames@.len() == 1,
        0 <= joint_id < a.joints@.len(),
    ensures
        a.sample_spec(joint_id) == (JointPose::Exact { pose: anim.frames@[0]@[joint_id] }),
{
    assert((a.time as nat) < (TIME_SCALE as nat));
    assert(a.time / TIME_SCALE == 0);
}

} // verus!
