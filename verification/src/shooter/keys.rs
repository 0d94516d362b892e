//! What the keys do: they move the turret, fire and end the game.

use vstd::prelude::*;
use crate::renderer::types::object::Location;
use crate::shooter::S_SIZE;

verus! {

/// A key of the keyboard, as far as the game cares.
#[derive(Clone, Copy, Debug, PartialEq, Eq, Structural)]
pub enum Key {
    Esc,
    Right,
    Left,
    Up,
    /// Any other key.
    Other,
}

/// A turret as a mathematical value.
pub struct TurretView {
    /// The column of its left edge.
    pub x: int,
    /// The row of its upper edge.
    pub y: int,
    /// Which sprite shows it.
    pub view: nat,
    /// How many columns it moves at a key press.
    pub speed: int,
}

/// The turret. It always stands on the field, and a key never moves it
/// the wrong way: its speed is not negative.
#[derive(Debug)]
pub struct Turret {
    x: i32,
    y: i32,
    view: usize,
    speed: i32,
}

impl View for Turret {
    type V = TurretView;

    closed spec fn view(&self) -> TurretView {
        TurretView { x: self.x as int, y: self.y as int, view: self.view as nat, speed: self.speed as int }
    }
}

/// A turret may stand in column `x` and move at `speed`: the column lies on
/// the field and the speed is not negative.
pub open spec fn turret_fits(x: int, speed: int) -> bool {
    0 <= x < S_SIZE.0 && 0 <= speed
}

impl Turret {
    /// Every turret that exists stands on the field and has a speed that
    /// is not negative.
    #[verifier::type_invariant]
    pub open spec fn on_field(self) -> bool {
        turret_fits(self@.x, self@.speed)
    }

    /// A turret in column `x` and row `y` that is shown by the sprite
    /// number `view` and moves `speed` columns at a key press, or `None` if
    /// the column lies off the field or the speed is negative.
    pub fn new(x: i32, y: i32, view: usize, speed: i32) -> (turret: Option<Turret>)
        ensures
            match turret {
                Some(turret) => turret_fits(x as int, speed as int) && turret@ == (TurretView {
                    x: x as int,
                    y: y as int,
                    view: view as nat,
                    speed: speed as int,
                }),
                None => !turret_fits(x as int, speed as int),
            },
    {
        if 0 <= x && x < S_SIZE.0 as i32 && 0 <= speed {
            Some(Turret { x, y, view, speed })
        } else {
            None
        }
    }

    /// The column of the left edge.
    pub fn x(&self) -> (x: i32)
        ensures
            x == self@.x,
    {
        self.x
    }

    /// The row of the upper edge.
    pub fn y(&self) -> (y: i32)
        ensures
            y == self@.y,
    {
        self.y
    }

    /// The number of the sprite that shows the turret.
    pub fn view_index(&self) -> (view: usize)
        ensures
            view == self@.view,
    {
        self.view
    }

    /// How many columns the turret moves at a key press.
    pub fn speed(&self) -> (speed: i32)
        ensures
            speed == self@.speed,
    {
        self.speed
    }
}

/// What the keys have done so far.
pub struct Played {
    pub turret: TurretView,
    /// Bullets in stock.
    pub ammo: u8,
    /// Where the bullets that were fired start, in the order of firing.
    pub shots: Seq<Location>,
    /// False once the escape key was pressed.
    pub proceed: bool,
}

/// What one key does. `width` is the width of the turret.
///
/// The turret moves to the right only as long as it stays on the field as
/// a whole, and to the left only as far as the edge. A bullet leaves the
/// turret three columns from its left edge, at the height of the turret.
pub open spec fn key_pressed(state: Played, key: Key, width: nat) -> Played {
    let turret = state.turret;
    match key {
        Key::Esc => Played { proceed: false, ..state },
        Key::Right => if turret.x + turret.speed + width < S_SIZE.0 {
            Played { turret: TurretView { x: turret.x + turret.speed, ..turret }, ..state }
        } else {
            state
        },
        Key::Left => if turret.x - turret.speed >= 0 {
            Played { turret: TurretView { x: turret.x - turret.speed, ..turret }, ..state }
        } else {
            state
        },
        Key::Up => if state.ammo > 0 {
            Played {
                ammo: (state.ammo - 1) as u8,
                shots: state.shots.push(Location { x: (turret.x + 3) as i32, y: turret.y as i32 }),
                ..state
            }
        } else {
            state
        },
        Key::Other => state,
    }
}

/// What a run of keys does, one after the other. The escape key ends the
/// run: the keys after it are dropped.
pub open spec fn keys_pressed(state: Played, keys: Seq<Key>, width: nat) -> Played
    decreases keys.len(),
{
    if keys.len() == 0 {
        state
    } else if keys[0] == Key::Esc {
        key_pressed(state, Key::Esc, width)
    } else {
        keys_pressed(key_pressed(state, keys[0], width), keys.drop_first(), width)
    }
}

/// Handles the keys that were pressed since the last frame, oldest first.
///
/// `turret_width` is the width of the sprite of the turret. `proceed` is
/// cleared if the escape key is among the keys, and left alone otherwise.
/// The result holds, for each bullet that was fired, the place where it
/// starts.
pub fn input(
    turret: &mut Turret,
    ammo: &mut u8,
    turret_width: usize,
    inputs: Vec<Key>,
    proceed: &mut bool,
) -> (shots: Vec<Location>)
    ensures
        ({
            let end = keys_pressed(
                Played {
                    turret: old(turret)@,
                    ammo: *old(ammo),
                    shots: Seq::empty(),
                    proceed: *old(proceed),
                },
                inputs@,
                turret_width as nat,
            );
            &&& final(turret)@ == end.turret
            &&& *final(ammo) == end.ammo
            &&& shots@ == end.shots
            &&& *final(proceed) == end.proceed
        }),
{
    let ghost start = Played {
        turret: turret@,
        ammo: *ammo,
        shots: Seq::empty(),
        proceed: *proceed,
    };
    let ghost width = turret_width as nat;
    let mut shots: Vec<Location> = Vec::new();
    let mut i: usize = 0;
    assert(inputs@.skip(0) =~= inputs@);
    while i < inputs.len()
        invariant
            i <= inputs.len(),
            width == turret_width as nat,
            start == (Played {
                turret: old(turret)@,
                ammo: *old(ammo),
                shots: Seq::empty(),
                proceed: *old(proceed),
            }),
            keys_pressed(
                Played { turret: turret@, ammo: *ammo, shots: shots@, proceed: *proceed },
                inputs@.skip(i as int),
                width,
            ) == keys_pressed(start, inputs@, width),
        decreases inputs.len() - i,
    {
        proof {
            use_type_invariant(&*turret);
            assert(inputs@.skip(i as int)[0] == inputs@[i as int]);
            assert(inputs@.skip(i as int).drop_first() =~= inputs@.skip(i + 1));
        }
        match inputs[i] {
            Key::Esc => {
                assert(keys_pressed(
                    Played { turret: turret@, ammo: *ammo, shots: shots@, proceed: *proceed },
                    inputs@.skip(i as int),
                    width,
                ) == (Played { turret: turret@, ammo: *ammo, shots: shots@, proceed: false }));
                *proceed = false;
                return shots;
            },
            Key::Right => {
                let reach: i128 = turret.x as i128 + turret.speed as i128 + turret_width as i128;
                if reach < S_SIZE.0 as i128 {
                    turret.x = turret.x + turret.speed;
                }
            },
            Key::Left => {
                if turret.x - turret.speed >= 0 {
                    turret.x = turret.x - turret.speed;
                }
            },
            Key::Up => {
                if *ammo > 0 {
                    let x = turret.x + 3;
                    let y = turret.y;
                    *ammo = *ammo - 1;
                    shots.push(Location { x, y });
                }
            },
            Key::Other => {},
        }
        i = i + 1;
    }
    shots
}

} // verus!
