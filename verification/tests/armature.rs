//! Playback tests: binding, time advance and wrap, and the sampling
//! boundaries.

use nexodia::armature::{Armature, BindError, JointPose, TIME_SCALE};
use nexodia::model::{
    Animation, AnimationFrame, AnimationJoint, Joint, Mat4, Transform, Vec3, Vec4,
};

fn v3(x: f32, y: f32, z: f32) -> Vec3 {
    Vec3 { x: x.to_bits(), y: y.to_bits(), z: z.to_bits() }
}

fn identity() -> Mat4 {
    let one = 1.0f32.to_bits();
    Mat4 {
        r0: Vec4 { x: one, y: 0, z: 0, w: 0 },
        r1: Vec4 { x: 0, y: one, z: 0, w: 0 },
        r2: Vec4 { x: 0, y: 0, z: one, w: 0 },
        r3: Vec4 { x: 0, y: 0, z: 0, w: one },
    }
}

fn joint(name: &[u8], id: usize, parent: usize, parents: Vec<usize>) -> Joint {
    Joint {
        name: name.to_vec(),
        id,
        parent,
        parents,
        tpose: identity(),
        tpose_local: identity(),
        ibm: identity(),
    }
}

fn two_joint_skeleton() -> Vec<Joint> {
    vec![joint(b"root", 0, 255, vec![]), joint(b"arm", 1, 0, vec![0])]
}

fn pose(tx: f32) -> Transform {
    Transform {
        translation: v3(tx, 0.0, 0.0),
        rotation: v3(0.0, 0.0, 0.0),
        scale: v3(1.0, 1.0, 1.0),
    }
}

fn frame(tx: f32) -> AnimationFrame {
    AnimationFrame {
        joints: vec![AnimationJoint { pose: pose(tx) }, AnimationJoint { pose: pose(-tx) }],
    }
}

fn two_frame_animation() -> Animation {
    Animation { name: b"walk".to_vec(), joints_length: 2, frames: vec![frame(1.0), frame(3.0)] }
}

#[test]
fn bind_mismatch_fails_fast_and_leaves_state() {
    let mut arm = Armature::new(two_joint_skeleton());
    let wrong = Animation { name: b"walk".to_vec(), joints_length: 3, frames: vec![] };
    match arm.set_animation(wrong) {
        Err(BindError::JointCountMismatch) => {},
        other => panic!("expected a joint-count mismatch, got {:?}", other),
    }
    assert_eq!(arm.frames(), 0);
    assert_eq!(arm.time, 0);
    match arm.get_joint_pose(0) {
        JointPose::Bind { pose } => assert_eq!(pose, identity()),
        other => panic!("unbound armature must render the bind pose, got {:?}", other),
    }
}

#[test]
fn bind_rejects_frame_with_wrong_joint_count() {
    let mut arm = Armature::new(two_joint_skeleton());
    let bad = Animation {
        name: b"walk".to_vec(),
        joints_length: 2,
        frames: vec![AnimationFrame { joints: vec![AnimationJoint { pose: pose(0.0) }] }],
    };
    match arm.set_animation(bad) {
        Err(BindError::JointCountMismatch) => {},
        other => panic!("expected a joint-count mismatch, got {:?}", other),
    }
}

#[test]
fn bind_rejects_empty_animation() {
    let mut arm = Armature::new(two_joint_skeleton());
    let empty = Animation { name: b"walk".to_vec(), joints_length: 2, frames: vec![] };
    match arm.set_animation(empty) {
        Err(BindError::EmptyAnimation) => {},
        other => panic!("expected an empty-animation error, got {:?}", other),
    }
}

#[test]
fn bind_resets_time() {
    let mut arm = Armature::new(two_joint_skeleton());
    arm.set_animation(two_frame_animation()).expect("animation matches the skeleton");
    assert_eq!(arm.time, 0);
    assert_eq!(arm.frames(), 2);
}

#[test]
fn last_frame_is_sampled_exactly() {
    let mut arm = Armature::new(two_joint_skeleton());
    arm.set_animation(two_frame_animation()).expect("animation matches the skeleton");
    arm.time = TIME_SCALE;  // frame index 1 of 2: the last frame
    match arm.get_joint_pose(0) {
        JointPose::Exact { pose: p } => assert_eq!(p, pose(3.0)),
        other => panic!("expected the last frame verbatim, got {:?}", other),
    }
}

#[test]
fn past_last_frame_is_still_sampled_exactly() {
    let mut arm = Armature::new(two_joint_skeleton());
    arm.set_animation(two_frame_animation()).expect("animation matches the skeleton");
    arm.time = TIME_SCALE + TIME_SCALE / 2;  // N - 1 + 0.5: no extrapolation
    match arm.get_joint_pose(1) {
        JointPose::Exact { pose: p } => assert_eq!(p, pose(-3.0)),
        other => panic!("expected the last frame verbatim, got {:?}", other),
    }
}

#[test]
fn midpoint_blends_frames_halfway() {
    let mut arm = Armature::new(two_joint_skeleton());
    arm.set_animation(two_frame_animation()).expect("animation matches the skeleton");
    arm.time = TIME_SCALE / 2;
    match arm.get_joint_pose(0) {
        JointPose::Blend { from, to, t } => {
            assert_eq!(from, pose(1.0));
            assert_eq!(to, pose(3.0));
            assert_eq!(t as u64, TIME_SCALE / 2);
        },
        other => panic!("expected a halfway blend, got {:?}", other),
    }
}

#[test]
fn single_frame_animation_always_samples_that_frame() {
    let mut arm = Armature::new(two_joint_skeleton());
    let anim = Animation { name: b"idle".to_vec(), joints_length: 2, frames: vec![frame(5.0)] };
    arm.set_animation(anim).expect("animation matches the skeleton");
    for _ in 0..100 {
        arm.update();
        match arm.get_joint_pose(0) {
            JointPose::Exact { pose: p } => assert_eq!(p, pose(5.0)),
            other => panic!("expected the single frame, got {:?}", other),
        }
        match arm.get_joint_pose(1) {
            JointPose::Exact { pose: p } => assert_eq!(p, pose(-5.0)),
            other => panic!("expected the single frame, got {:?}", other),
        }
    }
    assert!(arm.time < TIME_SCALE);
}

#[test]
fn update_advances_and_wraps_time() {
    let mut arm = Armature::new(two_joint_skeleton());
    arm.set_animation(two_frame_animation()).expect("animation matches the skeleton");
    arm.speed = 40000;
    arm.update();
    assert_eq!(arm.time, 40000);
    arm.update();
    assert_eq!(arm.time, 80000);
    arm.update();
    assert_eq!(arm.time, 120000);
    arm.update();  // 160000 >= 2 * 65536: wrap
    assert_eq!(arm.time, 0);
}

#[test]
fn update_without_animation_is_a_no_op() {
    let mut arm = Armature::new(two_joint_skeleton());
    arm.update();
    assert_eq!(arm.time, 0);
}
