use vstd::prelude::*;
use crate::model::{PlayerState, PlayerView};
use crate::text::{decimal, decimal_string};

verus! {

/// Level progression. `xp_curve[l - 1]` is the XP it takes to advance from level `l`
/// (level 0 counts as level 1); the curve is computed from the configured base XP and
/// growth factor by whoever loads the configuration.
#[derive(Clone, Debug)]
pub struct ProgressionConfig {
    pub max_level: u32,
    pub attribute_points_per_level: u32,
    pub xp_curve: Vec<u64>,
}

/// The plain values of a `ProgressionConfig`.
pub struct ProgressionView {
    pub max_level: u32,
    pub points_per_level: u32,
    pub curve: Seq<u64>,
}

impl View for ProgressionConfig {
    type V = ProgressionView;

    open spec fn view(&self) -> ProgressionView {
        ProgressionView {
            max_level: self.max_level,
            points_per_level: self.attribute_points_per_level,
            curve: self.xp_curve@,
        }
    }
}

impl ProgressionView {
    /// The curve gives a cost for every level below the maximum.
    pub open spec fn wf(self) -> bool {
        self.curve.len() >= self.max_level
    }

    /// XP it takes to advance from `level`.
    pub open spec fn needed(self, level: u32) -> u64 {
        self.curve[if level == 0 { 0 } else { level - 1 }]
    }

    /// Level, XP and unspent points after levelling up as far as `xp` reaches.
    pub open spec fn level_up(self, level: u32, xp: u64, points: u32) -> (u32, u64, u32)
        decreases self.max_level - level,
    {
        if level < self.max_level && xp >= self.needed(level) {
            self.level_up(
                (level + 1) as u32,
                (xp - self.needed(level)) as u64,
                sat_add_u32(points, self.points_per_level),
            )
        } else {
            (level, xp, points)
        }
    }

    /// Total XP it takes to advance from level `from` to level `to`.
    pub open spec fn xp_between(self, from: int, to: int) -> int
        decreases to - from,
    {
        if from >= to {
            0
        } else {
            self.needed(from as u32) + self.xp_between(from + 1, to)
        }
    }
}

/// A player's state after being awarded `amount` XP: the XP is added (saturating)
/// and the player levels up as far as it reaches.
pub open spec fn xp_award(p: ProgressionView, s: PlayerView, amount: u64) -> PlayerView {
    let (l, x, q) = p.level_up(s.level, sat_add_u64(s.xp, amount), s.unspent_points);
    PlayerView { level: l, xp: x, unspent_points: q, ..s }
}

/// The levels reached going from level `from` to level `to`, in order.
pub open spec fn levels_reached(from: u32, to: u32) -> Seq<u32> {
    Seq::new((to - from) as nat, |i: int| (from + 1 + i) as u32)
}

pub open spec fn sat_add_u32(a: u32, b: u32) -> u32 {
    if a + b > u32::MAX {
        u32::MAX
    } else {
        (a + b) as u32
    }
}

pub open spec fn sat_add_u64(a: u64, b: u64) -> u64 {
    if a + b > u64::MAX {
        u64::MAX
    } else {
        (a + b) as u64
    }
}

/// What levelling up keeps: no XP is lost or created (what is left plus the cost of
/// every level gained is what there was), the level only rises and stops at the
/// maximum, it stops only where the next level is out of reach, and each level gained
/// adds the configured attribute points (saturating).
pub proof fn lemma_level_up(p: ProgressionView, level: u32, xp: u64, points: u32)
    requires
        p.wf(),
    ensures
        ({
            let (l, x, q) = p.level_up(level, xp, points);
            &&& level <= l
            &&& l <= level || l <= p.max_level
            &&& xp == x + p.xp_between(level as int, l as int)
            &&& !(l < p.max_level && x >= p.needed(l))
            &&& q as int == if points + (l - level) * p.points_per_level > u32::MAX {
                u32::MAX as int
            } else {
                points + (l - level) * p.points_per_level
            }
        }),
    decreases p.max_level - level,
{
    if level < p.max_level && xp >= p.needed(level) {
        let next = (level + 1) as u32;
        let rest = (xp - p.needed(level)) as u64;
        let q1 = sat_add_u32(points, p.points_per_level);
        lemma_level_up(p, next, rest, q1);
        let (l, x, q) = p.level_up(next, rest, q1);
        assert(p.xp_between(level as int, l as int) == p.needed(level) + p.xp_between(
            next as int,
            l as int,
        ));
        assert((l - next) * p.points_per_level + p.points_per_level == (l - level)
            * p.points_per_level) by (nonlinear_arith)
            requires
                next == level + 1,
        ;
        assert(0 <= (l - next) * p.points_per_level) by (nonlinear_arith)
            requires
                l >= next,
        ;
    }
}

/// The message a player is sent on reaching `level`.
pub open spec fn level_up_text(level: u32, points: u32) -> Seq<char> {
    "\u{2726} Level "@ + decimal(level as nat) + "! You gained "@ + decimal(points as nat)
        + " attribute points."@
}

/// The message a player is sent on reaching `level`, having gained `points` points.
pub fn level_up_message(level: u32, points: u32) -> (r: String)
    ensures
        r@ == level_up_text(level, points),
{
    let mut r = String::from_str("\u{2726} Level ");
    r.append(decimal_string(level as u64).as_str());
    r.append("! You gained ");
    r.append(decimal_string(points as u64).as_str());
    r.append(" attribute points.");
    r
}

impl PlayerState {
    /// Adds XP (saturating) and levels up as far as it reaches. Returns the levels
    /// reached, in order.
    pub fn gain_xp(&mut self, amount: u64, progression: &ProgressionConfig) -> (levels: Vec<u32>)
        requires
            progression@.wf(),
        ensures
            ({
                let (l, x, q) = progression@.level_up(
                    old(self).level,
                    sat_add_u64(old(self).xp, amount),
                    old(self).unspent_points,
                );
                &&& final(self).level == l
                &&& final(self).xp == x
                &&& final(self).unspent_points == q
            }),
            final(self)@ == xp_award(progression@, old(self)@, amount),
            final(self).dragon_seeds == old(self).dragon_seeds,
            final(self).attributes == old(self).attributes,
            final(self).active == old(self).active,
            final(self).completed == old(self).completed,
            levels@ == levels_reached(old(self).level, final(self).level),
    {
        let ghost p = progression@;
        let ghost start = old(self).level;
        self.xp = self.xp.saturating_add(amount);
        let mut levels: Vec<u32> = Vec::new();
        while self.level < progression.max_level
            invariant_except_break
                p == progression@,
                p.wf(),
                start <= self.level,
                self.level == start || self.level <= p.max_level,
                p.level_up(self.level, self.xp, self.unspent_points) == p.level_up(
                    old(self).level,
                    sat_add_u64(old(self).xp, amount),
                    old(self).unspent_points,
                ),
                self.dragon_seeds == old(self).dragon_seeds,
                self.attributes == old(self).attributes,
                self.active == old(self).active,
                self.completed == old(self).completed,
                levels@ == Seq::new((self.level - start) as nat, |i: int| (start + 1 + i) as u32),
            ensures
                p.level_up(self.level, self.xp, self.unspent_points) == (
                    self.level,
                    self.xp,
                    self.unspent_points,
                ),
                p.level_up(self.level, self.xp, self.unspent_points) == p.level_up(
                    old(self).level,
                    sat_add_u64(old(self).xp, amount),
                    old(self).unspent_points,
                ),
                self.dragon_seeds == old(self).dragon_seeds,
                self.attributes == old(self).attributes,
                self.active == old(self).active,
                self.completed == old(self).completed,
                levels@ == Seq::new((self.level - start) as nat, |i: int| (start + 1 + i) as u32),
            decreases p.max_level - self.level,
        {
            let index: usize = if self.level == 0 { 0 } else { (self.level - 1) as usize };
            let needed = progression.xp_curve[index];
            if self.xp < needed {
                break;
            }
            self.xp = self.xp - needed;
            self.level = self.level + 1;
            self.unspent_points = self.unspent_points.saturating_add(
                progression.attribute_points_per_level,
            );
            levels.push(self.level);
            assert(levels@ =~= Seq::new((self.level - start) as nat, |i: int| (start + 1 + i) as u32));
        }
        levels
    }
}

} // verus!
