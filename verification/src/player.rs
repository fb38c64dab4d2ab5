//! The player's ship: when it comes back after being shot, how far it may
//! move, and what it fires.

use crate::laser::{sweep, swept, Laser, Origin, MUZZLE_OFFSET};
use crate::{Speed, WindowSize, DEFAULT_SPEED, UNIT};
use vstd::prelude::*;

verus! {

/// The height of the player's sprite, in sub-units.
pub const PLAYER_SPRITE_HEIGHT: i32 = 75 * UNIT;

/// The width of the player's sprite, in sub-units.
pub const PLAYER_SPRITE_WIDTH: i32 = 144 * UNIT;

/// How long after being shot the player comes back, in microseconds.
pub const PLAYER_RESPAWN_DELAY: u64 = 2_000_000;

/// The time between two turns of the respawn timer, in microseconds.
pub const RESPAWN_PERIOD: u32 = 500_000;

/// The gap kept between the player's sprite and the lower edge of the window, in sub-units.
pub const PLAYER_PADDING: i32 = 5 * UNIT;

/// How far inside the edge of the sprite each of the player's two lasers appears, in sub-units.
pub const LASER_INSET: i32 = 5 * UNIT;

/// Whether the player is in play, and when it was last shot.
#[derive(Clone, Copy, Debug, PartialEq, Eq, Structural)]
pub struct PlayerStatte {
    /// Whether the player's ship is in play.
    pub on: bool,
    /// When the player was last shot, in microseconds since startup; zero
    /// while the ship is in play and before it first was.
    pub last_shot: u64,
}

impl PlayerStatte {
    /// Whether a ship is due at `now`: none is in play, and either none has
    /// been shot yet or the last was shot more than
    /// [`PLAYER_RESPAWN_DELAY`] ago.
    pub open spec fn due(self, now: u64) -> bool {
        !self.on && (self.last_shot == 0 || now > self.last_shot + PLAYER_RESPAWN_DELAY)
    }

    /// Records that the ship was shot at `time`.
    pub fn shot(&mut self, time: u64)
        ensures
            *final(self) == (PlayerStatte { on: false, last_shot: time }),
    {
        self.on = false;
        self.last_shot = time;
    }

    /// Records that a ship has come into play.
    pub fn spawned(&mut self)
        ensures
            *final(self) == (PlayerStatte { on: true, last_shot: 0 }),
    {
        self.on = true;
        self.last_shot = 0;
    }

    /// Decides [`PlayerStatte::due`].
    pub fn is_due(&self, now: u64) -> (b: bool)
        ensures
            b == self.due(now),
    {
        !self.on && (self.last_shot == 0 || now as u128 > self.last_shot as u128
            + PLAYER_RESPAWN_DELAY as u128)
    }
}

impl Default for PlayerStatte {
    fn default() -> (state: PlayerStatte)
        ensures
            state == (PlayerStatte { on: false, last_shot: 0 }),
    {
        PlayerStatte { on: false, last_shot: 0 }
    }
}

/// The player's ship.
#[derive(Clone, Copy, Debug, PartialEq, Eq, Structural)]
pub struct Player {
    pub x: i32,
    pub y: i32,
    pub speed: Speed,
    /// Whether the next press of the trigger fires.
    pub ready_fire: bool,
}

/// Half of `n`, rounded toward zero.
pub open spec fn half(n: int) -> int {
    if n >= 0 {
        n / 2
    } else {
        -((-n) / 2)
    }
}

fn halve(n: i32) -> (h: i32)
    ensures
        h == half(n as int),
{
    if n >= 0 {
        n / 2
    } else {
        (-((-(n as i64)) / 2)) as i32
    }
}

impl Player {
    /// The ship as it comes into play in `window`: in the middle, a quarter
    /// of its height and the padding above the lower edge, ready to fire.
    pub open spec fn entering(window: WindowSize) -> Player {
        Player {
            x: 0,
            y: (-half(window.height as int) + PLAYER_SPRITE_HEIGHT / 4 + PLAYER_PADDING) as i32,
            speed: Speed(DEFAULT_SPEED),
            ready_fire: true,
        }
    }

    /// Where the keys steer: left is minus one, right is one, neither is
    /// zero, and left wins over right.
    pub open spec fn steer(left: bool, right: bool) -> int {
        if left {
            -1
        } else if right {
            1
        } else {
            0
        }
    }

    /// Whether a ship at `x` is beyond where it may go in `window`: further
    /// from the middle than half the window less a quarter of the sprite.
    pub open spec fn out_of_bounds(x: int, window: WindowSize) -> bool {
        2 * x > window.width - PLAYER_SPRITE_WIDTH / 2 || 2 * x < -(window.width
            - PLAYER_SPRITE_WIDTH / 2)
    }

    /// The ship after `tick` microseconds with the keys held as given: moved
    /// by the tick's reach to the side steered, unless that would take it out
    /// of bounds.
    pub open spec fn moved(self, left: bool, right: bool, window: WindowSize, tick: u32) -> Player {
        let x = self.x + Player::steer(left, right) * self.speed.reach(tick);
        if Player::out_of_bounds(x, window) {
            self
        } else {
            Player { x: x as i32, ..self }
        }
    }

    /// The two lasers that the ship fires: one from each side, from just
    /// above it, upward, at the default speed.
    pub open spec fn shots(self) -> Seq<Laser> {
        let side = PLAYER_SPRITE_WIDTH / 4 - LASER_INSET;
        seq![
            Laser {
                x: (self.x + side) as i64,
                y: (self.y + MUZZLE_OFFSET) as i64,
                speed: Speed(DEFAULT_SPEED),
                origin: Origin::FromPlayer,
            },
            Laser {
                x: (self.x - side) as i64,
                y: (self.y + MUZZLE_OFFSET) as i64,
                speed: Speed(DEFAULT_SPEED),
                origin: Origin::FromPlayer,
            },
        ]
    }

    /// Whether the ship fires: it is ready and the trigger is held.
    pub open spec fn fires(self, pressed: bool) -> bool {
        self.ready_fire && pressed
    }

    /// Whether the ship is ready to fire after a frame in which the trigger
    /// was held or not, and let go or not: letting go makes it ready, firing
    /// makes it unready, and otherwise it stays as it was.
    pub open spec fn ready_after(self, pressed: bool, just_released: bool) -> bool {
        if just_released {
            true
        } else if self.fires(pressed) {
            false
        } else {
            self.ready_fire
        }
    }
}

/// One turn of the respawn timer at `now`: if a ship is due it comes into
/// play and the state records it; if not, nothing happens.
pub fn player_spawn(player_state: &mut PlayerStatte, window_size: &WindowSize, now: u64) -> (spawned:
    Option<Player>)
    ensures
        old(player_state).due(now) ==> spawned == Some(Player::entering(*window_size))
            && *final(player_state) == (PlayerStatte { on: true, last_shot: 0 }),
        !old(player_state).due(now) ==> spawned is None && *final(player_state) == *old(
            player_state,
        ),
{
    if player_state.is_due(now) {
        let bottom: i32 = -halve(window_size.height);
        player_state.spawned();
        Some(
            Player {
                x: 0,
                y: bottom + PLAYER_SPRITE_HEIGHT / 4 + PLAYER_PADDING,
                speed: Speed(DEFAULT_SPEED),
                ready_fire: true,
            },
        )
    } else {
        None
    }
}

/// One tick of `tick` microseconds for the player's ship with the left and
/// right keys held as given. Without a ship nothing happens.
pub fn player_movment(
    player: &mut Option<Player>,
    left: bool,
    right: bool,
    window_size: &WindowSize,
    tick: u32,
)
    ensures
        *final(player) == match *old(player) {
            Some(ship) => Some(ship.moved(left, right, *window_size, tick)),
            None => None,
        },
{
    if let Some(ship) = *player {
        let reach: i128 = ship.speed.distance_in(tick) as i128;
        let x: i128 = if left {
            ship.x as i128 - reach
        } else if right {
            ship.x as i128 + reach
        } else {
            ship.x as i128
        };
        let limit: i128 = window_size.width as i128 - (PLAYER_SPRITE_WIDTH / 2) as i128;
        if !(2 * x > limit || 2 * x < -limit) {
            *player = Some(
                Player { x: x as i32, y: ship.y, speed: ship.speed, ready_fire: ship.ready_fire },
            );
        }
    }
}

/// One frame of the trigger: `pressed` says whether it is held,
/// `just_released` whether it was let go in this frame. A ship that is ready
/// and has the trigger held fires its two lasers and is no longer ready;
/// letting the trigger go makes it ready again. Without a ship nothing
/// happens and nothing is fired.
pub fn player_fire(player: &mut Option<Player>, pressed: bool, just_released: bool) -> (lasers: Vec<
    Laser,
>)
    ensures
        match *old(player) {
            Some(ship) => {
                &&& lasers@ == if ship.fires(pressed) {
                    ship.shots()
                } else {
                    Seq::<Laser>::empty()
                }
                &&& *final(player) == Some(
                    Player { ready_fire: ship.ready_after(pressed, just_released), ..ship },
                )
            },
            None => lasers@ == Seq::<Laser>::empty() && *final(player) == *old(player),
        },
{
    let mut lasers: Vec<Laser> = Vec::new();
    if let Some(ship) = *player {
        let mut ready: bool = ship.ready_fire;
        if ready && pressed {
            let side: i64 = (PLAYER_SPRITE_WIDTH / 4 - LASER_INSET) as i64;
            let y: i64 = ship.y as i64 + MUZZLE_OFFSET as i64;
            lasers.push(
                Laser {
                    x: ship.x as i64 + side,
                    y,
                    speed: Speed(DEFAULT_SPEED),
                    origin: Origin::FromPlayer,
                },
            );
            lasers.push(
                Laser {
                    x: ship.x as i64 - side,
                    y,
                    speed: Speed(DEFAULT_SPEED),
                    origin: Origin::FromPlayer,
                },
            );
            ready = false;
        }
        if just_released {
            ready = true;
        }
        *player = Some(Player { x: ship.x, y: ship.y, speed: ship.speed, ready_fire: ready });
    }
    lasers
}

/// One tick of `tick` microseconds for the lasers that the player fired: each
/// flies up and is removed once it is off screen. The enemies' lasers are
/// left as they are. The result says of each laser that was there, in its
/// place, whether it still is.
pub fn laser_movment(lasers: &mut Vec<Laser>, window_size: &WindowSize, tick: u32) -> (stays: Vec<
    bool,
>)
    ensures
        final(lasers)@ == swept(old(lasers)@, Origin::FromPlayer, *window_size, tick),
        stays@.len() == old(lasers)@.len(),
        forall|i: int|
            0 <= i < old(lasers)@.len() ==> #[trigger] stays@[i] == old(lasers)@[i].stays(
                Origin::FromPlayer,
                *window_size,
                tick,
            ),
{
    sweep(lasers, Origin::FromPlayer, window_size, tick)
}

} // verus!
