//! Orbital formations that squads of enemy craft share.
use vstd::prelude::*;
use crate::fixed::div_trunc;
use crate::random::RandomSource;
use crate::WinSize;
use crate::BASE_SPEED;
use crate::FORMATION_MEMBERS_MAX;

verus! {

/// How far beyond the edge of the play area a formation starts.
pub const START_MARGIN: i32 = 100_000;

/// What the upper end of the pivot band lies above a third of the height.
pub const PIVOT_MARGIN: i32 = 50_000;

/// Least horizontal radius of an orbit.
pub const RADIUS_X_MIN: i32 = 80_000;

/// Largest horizontal radius of an orbit.
pub const RADIUS_X_MAX: i32 = 150_000;

/// Vertical radius of every orbit.
pub const RADIUS_Y: i32 = 100_000;

/// The orbit of one squad. Lengths are in thousandths of a world unit.
///
/// `angle` is the phase at which a member enters the orbit, held as the
/// vector from `pivot` to `start` whose polar angle it is.
#[derive(Clone, Copy, Debug, PartialEq, Eq)]
pub struct Formation {
    pub start: (i32, i32),
    pub radius: (i32, i32),
    pub speed: i32,
    pub pivot: (i32, i32),
    pub angle: (i64, i64),
}

/// The random choices that a new formation is made of.
#[derive(Clone, Copy, Debug, PartialEq, Eq)]
pub struct FormationDraws {
    /// Whether the formation starts beyond the right edge, not the left.
    pub right_edge: bool,
    pub start_y: i32,
    pub pivot_x: i32,
    pub pivot_y: i32,
    pub radius_x: i32,
}

impl Default for FormationDraws {
    /// The draws of a formation that is not made.
    fn default() -> (draws: Self)
        ensures
            draws == (FormationDraws {
                right_edge: false,
                start_y: 0,
                pivot_x: 0,
                pivot_y: 0,
                radius_x: 0,
            }),
    {
        FormationDraws { right_edge: false, start_y: 0, pivot_x: 0, pivot_y: 0, radius_x: 0 }
    }
}

impl FormationDraws {
    /// The draws lie in the ranges that the play area gives them: the start
    /// height within the height extended by the start margin, the pivot
    /// within the inner band, the radius between its bounds.
    pub open spec fn fits(&self, win_size: &WinSize) -> bool {
        &&& -(win_size.height / 2 + START_MARGIN) <= self.start_y < win_size.height / 2
            + START_MARGIN
        &&& -(win_size.width / 4) <= self.pivot_x < win_size.width / 4
        &&& 0 <= self.pivot_y < win_size.height / 3 + PIVOT_MARGIN
        &&& RADIUS_X_MIN <= self.radius_x <= RADIUS_X_MAX
    }
}

impl Formation {
    /// The formation that `draws` describe in a play area of `win_size`: it
    /// starts beyond the left or the right edge, and turns at base speed.
    pub open spec fn spec_from_draws(win_size: &WinSize, draws: &FormationDraws) -> Formation {
        let w_span = div_trunc(win_size.width as int, 2) + START_MARGIN;
        let start_x = if draws.right_edge {
            w_span
        } else {
            -w_span
        };
        Formation {
            start: (start_x as i32, draws.start_y),
            radius: (draws.radius_x, RADIUS_Y),
            speed: BASE_SPEED,
            pivot: (draws.pivot_x, draws.pivot_y),
            angle: ((start_x - draws.pivot_x) as i64, (draws.start_y - draws.pivot_y) as i64),
        }
    }

    #[verifier::when_used_as_spec(spec_from_draws)]
    pub fn from_draws(win_size: &WinSize, draws: &FormationDraws) -> (f: Formation)
        ensures
            f == Self::spec_from_draws(win_size, draws),
    {
        let w_span: i32 = win_size.width / 2 + START_MARGIN;
        let start_x: i32 = if draws.right_edge {
            w_span
        } else {
            -w_span
        };
        Formation {
            start: (start_x, draws.start_y),
            radius: (draws.radius_x, RADIUS_Y),
            speed: BASE_SPEED,
            pivot: (draws.pivot_x, draws.pivot_y),
            angle: (
                start_x as i64 - draws.pivot_x as i64,
                draws.start_y as i64 - draws.pivot_y as i64,
            ),
        }
    }
}

/// Hands out formations: the same one to `FORMATION_MEMBERS_MAX` enemies in
/// a row, then a new one.
#[derive(Clone, Copy, Debug, PartialEq, Eq)]
pub struct FormationMaker {
    /// The formation that is handed out at present.
    pub current_template: Option<Formation>,
    /// The number of enemies that were given it.
    pub current_members: u32,
}

impl Default for FormationMaker {
    fn default() -> (m: Self)
        ensures
            m == (FormationMaker { current_template: None, current_members: 0 }),
    {
        FormationMaker { current_template: None, current_members: 0 }
    }
}

impl FormationMaker {
    /// Whether the next enemy gets the present formation.
    pub open spec fn reuses(&self) -> bool {
        self.current_template is Some && self.current_members < FORMATION_MEMBERS_MAX
    }

    /// A play area in which every range that a new formation is drawn from
    /// holds something.
    pub open spec fn can_place(win_size: &WinSize) -> bool {
        win_size.width >= 4 && win_size.height >= 0
    }

    /// The maker after it has handed out a formation, and that formation:
    /// the present one while fewer than `FORMATION_MEMBERS_MAX` enemies have
    /// it, else a new one, made of `draws`, which becomes the present one.
    pub open spec fn spec_make_from(self, win_size: &WinSize, draws: &FormationDraws) -> (
        Self,
        Formation,
    ) {
        if self.reuses() {
            (
                FormationMaker {
                    current_template: self.current_template,
                    current_members: (self.current_members + 1) as u32,
                },
                self.current_template.unwrap(),
            )
        } else {
            let f = Formation::spec_from_draws(win_size, draws);
            (FormationMaker { current_template: Some(f), current_members: 1 }, f)
        }
    }

    /// A maker that owes a new formation hands it to two enemies in a row:
    /// the second gets what the first got, whatever is drawn meanwhile, and
    /// the third gets a new formation, made of the draws of its turn.
    pub proof fn lemma_squad_of_two(
        self,
        win_size: &WinSize,
        first: &FormationDraws,
        second: &FormationDraws,
        third: &FormationDraws,
    )
        requires
            !self.reuses(),
        ensures
            ({
                let (maker, a) = self.spec_make_from(win_size, first);
                let (maker, b) = maker.spec_make_from(win_size, second);
                let (maker, c) = maker.spec_make_from(win_size, third);
                &&& a == Formation::spec_from_draws(win_size, first)
                &&& b == a
                &&& c == Formation::spec_from_draws(win_size, third)
                &&& maker.current_template == Some(c)
                &&& maker.current_members == 1
            }),
    {
    }

    /// Hands out a formation: the present one while fewer than
    /// `FORMATION_MEMBERS_MAX` enemies have it, else a new one, made of
    /// `draws`, which becomes the present one.
    pub fn make_from(&mut self, win_size: &WinSize, draws: &FormationDraws) -> (f: Formation)
        ensures
            (*final(self), f) == old(self).spec_make_from(win_size, draws),
    {
        match self.current_template {
            Some(template) if self.current_members < FORMATION_MEMBERS_MAX => {
                self.current_members += 1;
                template
            },
            _ => {
                let formation = Formation::from_draws(win_size, draws);
                self.current_template = Some(formation);
                self.current_members = 1;
                formation
            },
        }
    }

    /// Draws what a new formation is made of.
    pub fn draw(win_size: &WinSize, rng: &mut RandomSource) -> (draws: FormationDraws)
        requires
            Self::can_place(win_size),
        ensures
            draws.fits(win_size),
    {
        let h_span: i32 = win_size.height / 2 + START_MARGIN;
        let right_edge = rng.ratio(1, 2);
        let start_y = rng.range(-h_span, h_span);
        let w_span: i32 = win_size.width / 4;
        let h_span: i32 = win_size.height / 3 + PIVOT_MARGIN;
        let pivot_x = rng.range(-w_span, w_span);
        let pivot_y = rng.range(0, h_span);
        let radius_x = rng.range(RADIUS_X_MIN, RADIUS_X_MAX + 1);
        FormationDraws { right_edge, start_y, pivot_x, pivot_y, radius_x }
    }

    /// Hands out a formation: the present one while fewer than
    /// `FORMATION_MEMBERS_MAX` enemies have it, else a new one, drawn from
    /// `rng`, which becomes the present one.
    pub fn make(&mut self, win_size: &WinSize, rng: &mut RandomSource) -> (f: Formation)
        requires
            Self::can_place(win_size),
        ensures
            old(self).reuses() ==> {
                &&& Some(f) == old(self).current_template
                &&& final(self).current_template == old(self).current_template
                &&& final(self).current_members == old(self).current_members + 1
            },
            !old(self).reuses() ==> exists|draws: FormationDraws|
                draws.fits(win_size) && (*final(self), f) == #[trigger] old(self).spec_make_from(
                    win_size,
                    &draws,
                ),
    {
        match self.current_template {
            Some(template) if self.current_members < FORMATION_MEMBERS_MAX => {
                self.current_members += 1;
                template
            },
            _ => {
                let draws = Self::draw(win_size, rng);
                self.make_from(win_size, &draws)
            },
        }
    }
}

} // verus!
