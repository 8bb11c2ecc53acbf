use crate::noise::UNIT;
use crate::widgets::cave::CaveModel;
use crate::widgets::noise_background::NoiseBackground;
use crate::widgets::spaceship::SpaceshipModel;
use vstd::prelude::*;

verus! {

/// Energy of a ship at the start of a run.
pub const START_ENERGY: u32 = 100;

/// Bound on the background's speed, in fixed point (ten cells per tick).
pub const SPEED_LIMIT: i64 = 10 * UNIT;

/// Speed change of each layer per key press: the far background moves
/// slowest and the foreground cave fastest.
pub const BACKGROUND_STEP: i64 = 500_000;

pub const CAVE_STEP: i64 = 1;

pub const FOREGROUND_STEP: i64 = 2;

/// Columns of the viewport that the energy bar leaves free.
pub const BAR_MARGIN: u16 = 11;

/// What a player can ask for.
#[derive(Clone, Copy, Debug, PartialEq, Eq, Structural)]
pub enum Command {
    Quit,
    Stop,
    Left,
    Right,
    Up,
    Down,
}

/// State that the game carries from one tick to the next.
#[derive(Clone, Copy, Debug, PartialEq, Eq, Structural)]
pub struct GameState {
    pub energy: u32,
    pub colliding: bool,
}

/// `y` moved one row towards the passage of a column whose span starts at
/// `top`, within the range of `u16`.
pub open spec fn nudged(y: int, top: int) -> int {
    if y < top {
        if y < u16::MAX { y + 1 } else { y }
    } else {
        if y > 0 { y - 1 } else { y }
    }
}

/// Number of filled cells of an energy bar `width` cells wide.
pub open spec fn filled_cells(energy: int, width: int) -> int {
    energy * width / 100
}

impl GameState {
    pub fn new() -> (r: Self)
        ensures
            r == (GameState { energy: START_ENERGY, colliding: false }),
    {
        GameState { energy: START_ENERGY, colliding: false }
    }

    /// Checks the ship against the cave and applies the response: when it
    /// hits rock it loses one unit of energy (none below zero) and is
    /// pushed one row back towards the passage.
    pub fn resolve_collision(&mut self, ship: &mut SpaceshipModel, cave: &CaveModel)
        requires
            (old(ship).position.x as int) < cave.openings@.len(),
        ensures
            ({
                let x = old(ship).position.x as int;
                let y = old(ship).position.y as int;
                let (top, bottom) = cave.openings@[x];
                &&& final(self).colliding == (y < top || y > bottom)
                &&& final(self).energy == (if final(self).colliding && old(self).energy > 0 {
                    old(self).energy - 1
                } else {
                    old(self).energy as int
                })
                &&& final(ship).position.x == old(ship).position.x
                &&& final(ship).position.y == (if final(self).colliding {
                    nudged(y, top as int)
                } else {
                    y
                })
            }),
    {
        self.colliding = ship.check_collision(cave);
        if self.colliding {
            self.energy = self.energy.saturating_sub(1);
            let (top, _) = cave.openings[ship.position.x as usize];
            if (ship.position.y as i64) < top {
                ship.move_down();
            } else {
                ship.move_up();
            }
        }
    }

    /// The energy bar for a viewport whose right edge is `right`: the
    /// numbers of filled and of empty cells, which add up to the bar's
    /// width `right - BAR_MARGIN` (zero when the viewport is narrower).
    pub fn energy_bar(&self, right: u16) -> (r: (usize, usize))
        requires
            self.energy <= START_ENERGY,
        ensures
            ({
                let width = if right >= BAR_MARGIN { right - BAR_MARGIN } else { 0 };
                &&& r.0 == filled_cells(self.energy as int, width)
                &&& r.0 + r.1 == width
            }),
    {
        let width: u16 = right.saturating_sub(BAR_MARGIN);
        proof {
            let e = self.energy as int;
            let w = width as int;
            assert(0 <= e * w <= 100 * w) by (nonlinear_arith)
                requires
                    0 <= e <= 100,
                    0 <= w,
            ;
            vstd::arithmetic::div_mod::lemma_div_is_ordered(e * w, 100 * w, 100);
            vstd::arithmetic::div_mod::lemma_div_multiples_vanish(w, 100);
            vstd::arithmetic::div_mod::lemma_div_pos_is_pos(e * w, 100);
        }
        let filled: u32 = self.energy * (width as u32) / 100;
        (filled as usize, (width as u32 - filled) as usize)
    }

    /// Applies a command to the layers and the ship; returns whether the
    /// game goes on. Speeds change together, the background by half a cell,
    /// the cave by one and the foreground by two, and only while the
    /// background stays within `SPEED_LIMIT`. The ship moves only while it
    /// is clear of the rock; otherwise the collision response moves it.
    pub fn handle_command(
        &self,
        command: Command,
        background: &mut NoiseBackground,
        cave: &mut CaveModel,
        cave_foreground: &mut CaveModel,
        ship: &mut SpaceshipModel,
    ) -> (r: bool)
        requires
            i64::MIN + UNIT <= old(background).speed_x <= i64::MAX - UNIT,
            i64::MIN + CAVE_STEP <= old(cave).speed_x <= i64::MAX - CAVE_STEP,
            i64::MIN + FOREGROUND_STEP <= old(cave_foreground).speed_x <= i64::MAX
                - FOREGROUND_STEP,
        ensures
            r == (command != Command::Quit),
            ({
                let bg = *old(background);
                let c = *old(cave);
                let f = *old(cave_foreground);
                let faster = command == Command::Right && bg.speed_x < SPEED_LIMIT;
                let slower = command == Command::Left && bg.speed_x > -SPEED_LIMIT;
                if command == Command::Stop {
                    &&& *final(background) == (NoiseBackground { speed_x: 0, ..bg })
                    &&& *final(cave) == (CaveModel { speed_x: 0, ..c })
                    &&& *final(cave_foreground) == (CaveModel { speed_x: 0, ..f })
                } else if faster {
                    &&& *final(background) == (NoiseBackground {
                        speed_x: (bg.speed_x + BACKGROUND_STEP) as i64,
                        ..bg
                    })
                    &&& *final(cave) == (CaveModel { speed_x: (c.speed_x + CAVE_STEP) as i64, ..c })
                    &&& *final(cave_foreground) == (CaveModel {
                        speed_x: (f.speed_x + FOREGROUND_STEP) as i64,
                        ..f
                    })
                } else if slower {
                    &&& *final(background) == (NoiseBackground {
                        speed_x: (bg.speed_x - BACKGROUND_STEP) as i64,
                        ..bg
                    })
                    &&& *final(cave) == (CaveModel { speed_x: (c.speed_x - CAVE_STEP) as i64, ..c })
                    &&& *final(cave_foreground) == (CaveModel {
                        speed_x: (f.speed_x - FOREGROUND_STEP) as i64,
                        ..f
                    })
                } else {
                    &&& *final(background) == bg
                    &&& *final(cave) == c
                    &&& *final(cave_foreground) == f
                }
            }),
            final(ship).position.x == old(ship).position.x,
            final(ship).position.y == (if command == Command::Up && !self.colliding && old(
                ship,
            ).position.y > 0 {
                old(ship).position.y - 1
            } else if command == Command::Down && !self.colliding && old(ship).position.y
                < u16::MAX {
                old(ship).position.y + 1
            } else {
                old(ship).position.y as int
            }),
    {
        match command {
            Command::Quit => {
                return false;
            },
            Command::Stop => {
                background.set_speed_x(0);
                cave.set_speed_x(0);
                cave_foreground.set_speed_x(0);
            },
            Command::Left => {
                if background.speed_x > -SPEED_LIMIT {
                    background.set_speed_x(background.speed_x - BACKGROUND_STEP);
                    cave.set_speed_x(cave.speed_x - CAVE_STEP);
                    cave_foreground.set_speed_x(cave_foreground.speed_x - FOREGROUND_STEP);
                }
            },
            Command::Right => {
                if background.speed_x < SPEED_LIMIT {
                    background.set_speed_x(background.speed_x + BACKGROUND_STEP);
                    cave.set_speed_x(cave.speed_x + CAVE_STEP);
                    cave_foreground.set_speed_x(cave_foreground.speed_x + FOREGROUND_STEP);
                }
            },
            Command::Up => {
                if !self.colliding {
                    ship.move_up();
                }
            },
            Command::Down => {
                if !self.colliding {
                    ship.move_down();
                }
            },
        }
        true
    }
}

} // verus!
