//! The camera that follows the boat.
//!
//! The camera hangs on a bobber that stays above the boat and turns after
//! its heading; the player looks around by turning the bobber further.
use vstd::prelude::*;
use crate::boat::PlayerBoat;
use crate::fixed::{fx_mul, sat_neg, sat_sub, spec_fx_mul, spec_sat_neg, spec_sat_sub};
use crate::quat::{Quat, Transform};
use crate::vector::Vec3;

verus! {

/// How fast the bobber turns after the boat, per second.
pub const CAMERA_ROTATION_FACTOR: i64 = 10_000_000_000;

/// How far behind the bobber the camera hangs.
pub const CAMERA_Z_TRANSLATION: i64 = 50_000_000_000;

/// How much nearer the camera comes when the view is fully raised: all
/// the way but a hundredth.
pub const CAMERA_Z_RANGE: i64 = 49_990_000_000;

/// The height of the camera against the bobber: five below.
pub const CAMERA_Y: i64 = -5_000_000_000;

/// Radians of turn for each unit the mouse moves.
pub const MOUSE_SENSITIVITY: i64 = 1_000_000;

/// Whether the player is raising or lowering the view to the sky, and how
/// far it is raised: nothing at zero, fully at one.
#[derive(Clone, Copy, Debug, PartialEq, Eq, Structural)]
pub enum LookingUp {
    /// The view lies level.
    Level,
    LookingUp(i64),
    LookingDown(i64),
}

/// What the camera hangs on.
#[derive(Clone, Copy, Debug, PartialEq, Eq, Structural)]
pub struct CameraTracker {
    pub bobber: Transform,
    pub looking_up: LookingUp,
    pub input_rotation: Quat,
}

impl LookingUp {
    /// What `value` returns.
    pub open spec fn spec_value(&self) -> i64 {
        match *self {
            LookingUp::Level => 0,
            LookingUp::LookingUp(a) => a,
            LookingUp::LookingDown(a) => a,
        }
    }

    /// How far the view is raised.
    #[verifier::when_used_as_spec(spec_value)]
    pub fn value(&self) -> (r: i64)
        ensures
            r == self.spec_value(),
    {
        match *self {
            LookingUp::Level => 0,
            LookingUp::LookingUp(a) => a,
            LookingUp::LookingDown(a) => a,
        }
    }
}

impl CameraTracker {
    /// What `new` returns.
    pub open spec fn spec_new() -> CameraTracker {
        CameraTracker {
            bobber: Transform {
                translation: Vec3 { x: 0, y: 15_000_000_000, z: 0 },
                rotation: Quat::spec_identity(),
            },
            looking_up: LookingUp::Level,
            input_rotation: Quat::spec_identity(),
        }
    }

    /// A camera on a bobber fifteen above the origin, looking ahead.
    #[verifier::when_used_as_spec(spec_new)]
    pub fn new() -> (r: CameraTracker)
        ensures
            r == CameraTracker::spec_new(),
    {
        CameraTracker {
            bobber: Transform {
                translation: Vec3 { x: 0, y: 15_000_000_000, z: 0 },
                rotation: Quat::identity(),
            },
            looking_up: LookingUp::Level,
            input_rotation: Quat::identity(),
        }
    }

    /// Where the camera hangs: below and behind the bobber, nearer the more
    /// the view is raised.
    pub open spec fn spec_camera_translation(&self) -> Vec3 {
        let camera_z = spec_sat_sub(
            CAMERA_Z_TRANSLATION,
            spec_fx_mul(self.looking_up.spec_value(), CAMERA_Z_RANGE),
        );
        self.bobber.translation.spec_plus(
            self.bobber.rotation.spec_rotate(Vec3 { x: 0, y: CAMERA_Y, z: camera_z }),
        )
    }

    /// Where the camera hangs: below and behind the bobber, nearer the more
    /// the view is raised.
    #[verifier::when_used_as_spec(spec_camera_translation)]
    pub fn camera_translation(&self) -> (r: Vec3)
        ensures
            r == self.spec_camera_translation(),
    {
        let camera_z = sat_sub(
            CAMERA_Z_TRANSLATION,
            fx_mul(self.looking_up.value(), CAMERA_Z_RANGE),
        );
        self.bobber.translation.plus(
            self.bobber.rotation.rotate(Vec3 { x: 0, y: CAMERA_Y, z: camera_z }),
        )
    }
}

/// The bobber after `dt` seconds behind a boat: above the boat, turned a
/// share of the way toward the boat's heading and the player's own turn.
pub open spec fn spec_bobber_after(
    camera: CameraTracker,
    boat: PlayerBoat,
    boat_transform: Transform,
    dt: i64,
) -> Transform {
    Transform {
        translation: Vec3 {
            x: boat_transform.translation.x,
            y: camera.bobber.translation.y,
            z: boat_transform.translation.z,
        },
        rotation: camera.bobber.rotation.spec_slerp(
            Quat::spec_from_rotation_y(boat.world_rotation).spec_times(camera.input_rotation),
            spec_fx_mul(dt, CAMERA_ROTATION_FACTOR),
        ),
    }
}

/// Moves the bobber after the boat and says where the camera hangs. All
/// else of the tracker stays.
pub fn camera_system(
    dt: i64,
    camera: &mut CameraTracker,
    boat: &PlayerBoat,
    boat_transform: &Transform,
) -> (r: Vec3)
    ensures
        *final(camera) == (CameraTracker {
            bobber: spec_bobber_after(*old(camera), *boat, *boat_transform, dt),
            ..*old(camera)
        }),
        r == final(camera).spec_camera_translation(),
        final(camera).bobber.rotation.is_unit(),
{
    camera.bobber.translation.x = boat_transform.translation.x;
    camera.bobber.translation.z = boat_transform.translation.z;
    camera.bobber.rotation = camera.bobber.rotation.slerp(
        Quat::from_rotation_y(boat.world_rotation).times(camera.input_rotation),
        fx_mul(dt, CAMERA_ROTATION_FACTOR),
    );
    camera.camera_translation()
}

/// The player's turn of the view after the mouse has moved by
/// `(delta_x, delta_y)`.
pub open spec fn spec_input_rotation_after(rotation: Quat, delta_x: i64, delta_y: i64) -> Quat {
    rotation.spec_times(
        Quat::spec_from_rotation_y(spec_fx_mul(spec_sat_neg(delta_x), MOUSE_SENSITIVITY)),
    ).spec_times(
        Quat::spec_from_rotation_x(spec_fx_mul(delta_y, MOUSE_SENSITIVITY)),
    ).spec_normalize()
}

/// Turns the view with the mouse: sideways about the vertical, up and down
/// about x. The turn stays a unit quaternion.
pub fn mouse_input_system(camera: &mut CameraTracker, delta_x: i64, delta_y: i64)
    ensures
        *final(camera) == (CameraTracker {
            input_rotation: spec_input_rotation_after(
                old(camera).input_rotation,
                delta_x,
                delta_y,
            ),
            ..*old(camera)
        }),
        final(camera).input_rotation.is_unit(),
{
    camera.input_rotation = camera.input_rotation.times(
        Quat::from_rotation_y(fx_mul(sat_neg(delta_x), MOUSE_SENSITIVITY)),
    ).times(Quat::from_rotation_x(fx_mul(delta_y, MOUSE_SENSITIVITY))).normalize();
}

} // verus!
