//! The helm: what the keys do to throttle, rudder and view.
use vstd::prelude::*;
use crate::boat::PlayerBoat;
use crate::camera::{CameraTracker, LookingUp};
use crate::fixed::{fx_mul, sat_add, sat_sub, spec_fx_mul, spec_sat_add, spec_sat_sub, SCALE};
use crate::navigation::AppState;

verus! {

/// How fast the throttle opens, per second.
pub const INPUT_ACCEL: i64 = 1_000_000_000;

/// How fast throttle and rudder fall back, per second.
pub const INPUT_DECAY: i64 = 4_000_000_000;

/// How fast the rudder is put over, per second.
pub const STEER_ACCEL: i64 = 10_000_000_000;

/// Full throttle.
pub const BOAT_MAX_THRUST: i64 = 1_000_000_000;

/// The longest step over which a throttle astern falls back without
/// passing full ahead.
pub const LONGEST_STEP: i64 = 250_000_000;

/// The keys of the helm as they stand in one tick.
#[derive(Clone, Copy, Debug, PartialEq, Eq, Structural)]
pub struct Controls {
    pub forward: bool,
    pub backward: bool,
    pub left: bool,
    pub right: bool,
    /// The key that raises the view went down in this tick.
    pub look_pressed: bool,
    /// The key that raises the view came up in this tick.
    pub look_released: bool,
}

/// The smaller of two.
pub open spec fn min_i64(a: i64, b: i64) -> i64 {
    if a <= b {
        a
    } else {
        b
    }
}

/// The larger of two.
pub open spec fn max_i64(a: i64, b: i64) -> i64 {
    if a >= b {
        a
    } else {
        b
    }
}

/// The throttle after the key for ahead: held, it opens up to full; let
/// go, a throttle ahead falls back to nothing.
pub open spec fn throttle_after_forward(throttle: i64, forward: bool, dt: i64) -> i64 {
    if forward {
        if throttle < BOAT_MAX_THRUST {
            min_i64(spec_sat_add(throttle, spec_fx_mul(INPUT_ACCEL, dt)), BOAT_MAX_THRUST)
        } else {
            throttle
        }
    } else if throttle > 0 {
        max_i64(spec_sat_sub(throttle, spec_fx_mul(INPUT_DECAY, dt)), 0)
    } else {
        throttle
    }
}

/// The throttle after the key for astern: held, it opens astern as long as
/// it is short of half astern; let go, a throttle astern is taken off.
pub open spec fn throttle_after_backward(throttle: i64, backward: bool, dt: i64) -> i64 {
    if backward {
        if throttle > -BOAT_MAX_THRUST / 2 {
            max_i64(spec_sat_sub(throttle, spec_fx_mul(INPUT_ACCEL, dt)), -BOAT_MAX_THRUST as i64)
        } else {
            throttle
        }
    } else if throttle < 0 {
        max_i64(spec_sat_add(throttle, spec_fx_mul(INPUT_DECAY, dt)), 0)
    } else {
        throttle
    }
}

/// The rudder after the key for left: held, it goes over to the left; let
/// go, a rudder to the left comes back to the middle.
pub open spec fn steer_after_left(steer: i64, left: bool, dt: i64) -> i64 {
    if left {
        if steer > -SCALE {
            max_i64(spec_sat_sub(steer, spec_fx_mul(STEER_ACCEL, dt)), -SCALE as i64)
        } else {
            steer
        }
    } else if steer < 0 {
        min_i64(spec_sat_add(steer, spec_fx_mul(INPUT_DECAY, dt)), 0)
    } else {
        steer
    }
}

/// The rudder after the key for right, likewise.
pub open spec fn steer_after_right(steer: i64, right: bool, dt: i64) -> i64 {
    if right {
        if steer < SCALE {
            min_i64(spec_sat_add(steer, spec_fx_mul(STEER_ACCEL, dt)), SCALE)
        } else {
            steer
        }
    } else if steer > 0 {
        max_i64(spec_sat_sub(steer, spec_fx_mul(INPUT_DECAY, dt)), 0)
    } else {
        steer
    }
}

/// The view after the key that raises it: going down it starts the view
/// rising, coming up it starts it falling, from where it stands.
pub open spec fn looking_after(looking_up: LookingUp, controls: Controls) -> LookingUp {
    if controls.look_pressed {
        LookingUp::LookingUp(looking_up.spec_value())
    } else if controls.look_released {
        LookingUp::LookingDown(looking_up.spec_value())
    } else {
        looking_up
    }
}

/// Works the helm for one tick of `dt` seconds.
///
/// The key for ahead is seen to before the key for astern, the key for
/// left before the key for right. A throttle and a rudder between minus
/// one and one stay there, over any step of no more than a quarter of a
/// second.
pub fn ingame_keyboard_input_system(
    dt: i64,
    controls: &Controls,
    boat: &mut PlayerBoat,
    camera: &mut CameraTracker,
)
    ensures
        *final(boat) == (PlayerBoat {
            throttle: throttle_after_backward(
                throttle_after_forward(old(boat).throttle, controls.forward, dt),
                controls.backward,
                dt,
            ),
            steer: steer_after_right(
                steer_after_left(old(boat).steer, controls.left, dt),
                controls.right,
                dt,
            ),
            ..*old(boat)
        }),
        *final(camera) == (CameraTracker {
            looking_up: looking_after(old(camera).looking_up, *controls),
            ..*old(camera)
        }),
        0 <= dt <= LONGEST_STEP && -SCALE <= old(boat).throttle <= SCALE ==> -SCALE
            <= final(boat).throttle <= SCALE,
        0 <= dt <= LONGEST_STEP && -SCALE <= old(boat).steer <= SCALE ==> -SCALE
            <= final(boat).steer <= SCALE,
{
    proof {
        lemma_rates(dt);
    }
    if controls.forward {
        if boat.throttle < BOAT_MAX_THRUST {
            let opened = sat_add(boat.throttle, fx_mul(INPUT_ACCEL, dt));
            boat.throttle = if opened <= BOAT_MAX_THRUST {
                opened
            } else {
                BOAT_MAX_THRUST
            };
        }
    } else if boat.throttle > 0 {
        let eased = sat_sub(boat.throttle, fx_mul(INPUT_DECAY, dt));
        boat.throttle = if eased >= 0 {
            eased
        } else {
            0
        };
    }
    if controls.backward {
        if boat.throttle > -BOAT_MAX_THRUST / 2 {
            let opened = sat_sub(boat.throttle, fx_mul(INPUT_ACCEL, dt));
            boat.throttle = if opened >= -BOAT_MAX_THRUST {
                opened
            } else {
                -BOAT_MAX_THRUST
            };
        }
    } else if boat.throttle < 0 {
        let eased = sat_add(boat.throttle, fx_mul(INPUT_DECAY, dt));
        boat.throttle = if eased >= 0 {
            eased
        } else {
            0
        };
    }
    if controls.left {
        if boat.steer > -SCALE {
            let over = sat_sub(boat.steer, fx_mul(STEER_ACCEL, dt));
            boat.steer = if over >= -SCALE {
                over
            } else {
                -SCALE
            };
        }
    } else if boat.steer < 0 {
        let eased = sat_add(boat.steer, fx_mul(INPUT_DECAY, dt));
        boat.steer = if eased <= 0 {
            eased
        } else {
            0
        };
    }
    if controls.right {
        if boat.steer < SCALE {
            let over = sat_add(boat.steer, fx_mul(STEER_ACCEL, dt));
            boat.steer = if over <= SCALE {
                over
            } else {
                SCALE
            };
        }
    } else if boat.steer > 0 {
        let eased = sat_sub(boat.steer, fx_mul(INPUT_DECAY, dt));
        boat.steer = if eased >= 0 {
            eased
        } else {
            0
        };
    }
    if controls.look_pressed {
        camera.looking_up = LookingUp::LookingUp(camera.looking_up.value());
    } else if controls.look_released {
        camera.looking_up = LookingUp::LookingDown(camera.looking_up.value());
    }
}

/// The other of the two states of the game.
pub open spec fn spec_other_state(state: AppState) -> AppState {
    match state {
        AppState::InGame => AppState::Menu,
        AppState::Menu => AppState::InGame,
    }
}

/// What the menu key asks for: the state to go to, and whether the cursor
/// is to be shown there. It is shown in the menu and hidden in the game.
pub open spec fn spec_menu_switch(state: AppState, pressed: bool) -> Option<(AppState, bool)> {
    if pressed {
        Some((spec_other_state(state), spec_other_state(state) == AppState::Menu))
    } else {
        None
    }
}

/// The menu key: pressed in the game it asks for the menu, and in the menu
/// for the game; not pressed it asks for nothing.
#[verifier::when_used_as_spec(spec_menu_switch)]
pub fn menu_keyboard_input_system(state: AppState, pressed: bool) -> (r: Option<(AppState, bool)>)
    ensures
        r == spec_menu_switch(state, pressed),
{
    if pressed {
        match state {
            AppState::InGame => Some((AppState::Menu, true)),
            AppState::Menu => Some((AppState::InGame, false)),
        }
    } else {
        None
    }
}

/// Over a short step each rate changes its value by the rate times the
/// step.
proof fn lemma_rates(dt: i64)
    ensures
        0 <= dt <= LONGEST_STEP ==> spec_fx_mul(INPUT_ACCEL, dt) == dt && spec_fx_mul(
            INPUT_DECAY,
            dt,
        ) == 4 * dt && spec_fx_mul(STEER_ACCEL, dt) == 10 * dt,
{
    if 0 <= dt <= LONGEST_STEP {
        assert((1_000_000_000 * dt) / 1_000_000_000 == dt);
        assert((4_000_000_000 * dt) / 1_000_000_000 == 4 * dt);
        assert((10_000_000_000 * dt) / 1_000_000_000 == 10 * dt);
    }
}

} // verus!
