//! The flow rule: what one water cell hands to its neighbours in one tick.
//!
//! Only the centre of the window acts. The rule runs five steps in a fixed
//! order; each step sees the fill that the steps before it have left.

use crate::cell::Cell;
use crate::random::draw_bit;
use crate::window::{Deltas, Flow, Neighborhood};
use rand::rngs::StdRng;
use vstd::prelude::*;

verus! {

pub open spec fn lesser(a: int, b: int) -> int {
    if a <= b {
        a
    } else {
        b
    }
}

pub open spec fn greater(a: int, b: int) -> int {
    if a >= b {
        a
    } else {
        b
    }
}

/// The rule between two of its steps: the fill still at the centre and what
/// has been handed out so far.
pub struct Pending {
    pub fill: int,
    pub flow: Flow,
}

impl Pending {
    /// The state before the first step.
    pub open spec fn start(fill: int) -> Pending {
        Pending { fill, flow: Flow::none() }
    }

    /// Hands `amount` to the left neighbour; an amount of zero or less moves
    /// nothing.
    pub open spec fn send_left(self, amount: int) -> Pending {
        if amount > 0 {
            Pending {
                fill: self.fill - amount,
                flow: Flow { left: self.flow.left + amount, ..self.flow },
            }
        } else {
            self
        }
    }

    pub open spec fn send_right(self, amount: int) -> Pending {
        if amount > 0 {
            Pending {
                fill: self.fill - amount,
                flow: Flow { right: self.flow.right + amount, ..self.flow },
            }
        } else {
            self
        }
    }

    pub open spec fn send_up(self, amount: int) -> Pending {
        if amount > 0 {
            Pending {
                fill: self.fill - amount,
                flow: Flow { up: self.flow.up + amount, ..self.flow },
            }
        } else {
            self
        }
    }

    pub open spec fn send_down(self, amount: int) -> Pending {
        if amount > 0 {
            Pending {
                fill: self.fill - amount,
                flow: Flow { down: self.flow.down + amount, ..self.flow },
            }
        } else {
            self
        }
    }

    /// Nothing has been lost or made: the fill left and the fill handed out
    /// add up to `start`, no part is negative, and only water neighbours have
    /// received anything.
    pub open spec fn balanced(self, nb: Neighborhood, start: int) -> bool {
        &&& self.fill >= 0
        &&& self.flow.left >= 0
        &&& self.flow.right >= 0
        &&& self.flow.up >= 0
        &&& self.flow.down >= 0
        &&& self.fill + self.flow.total() == start
        &&& self.flow.left > 0 ==> nb.left.is_water()
        &&& self.flow.right > 0 ==> nb.right.is_water()
        &&& self.flow.up > 0 ==> nb.above.is_water()
        &&& self.flow.down > 0 ==> nb.below.is_water()
    }
}

/// Step one, horizontal part: a cell with inertia towards a water neighbour
/// keeps moving that way, by one unit less than its inertia and by no more
/// than it holds.
pub open spec fn after_horizontal_inertia(nb: Neighborhood, p: Pending) -> Pending {
    let inertia = nb.center.inertia_horiz();
    if inertia > 0 && nb.right.is_water() {
        p.send_right(lesser(inertia - 1, p.fill))
    } else if inertia < 0 && nb.left.is_water() {
        p.send_left(lesser(-inertia - 1, p.fill))
    } else {
        p
    }
}

/// Step one, vertical part.
pub open spec fn after_vertical_inertia(nb: Neighborhood, p: Pending) -> Pending {
    let inertia = nb.center.inertia_vert();
    if inertia > 0 && nb.below.is_water() {
        p.send_down(lesser(inertia - 1, p.fill))
    } else if inertia < 0 && nb.above.is_water() {
        p.send_up(lesser(-inertia - 1, p.fill))
    } else {
        p
    }
}

/// Step two: water falls into a water cell below that is not yet full, as
/// much as fits there and no more than is left here.
pub open spec fn after_gravity(nb: Neighborhood, max_fill: int, p: Pending) -> Pending {
    if nb.below.is_water() && nb.below.fill() < max_fill {
        p.send_down(lesser(max_fill - nb.below.fill(), p.fill))
    } else {
        p
    }
}

/// What a cell holding `fill` may hand sideways when the lowest neighbour
/// holds `lowest`.
pub open spec fn outflow_budget(fill: int, lowest: int, remain_min: int) -> int {
    greater(0, lesser(fill - lowest + remain_min, fill))
}

/// What a cell holding `fill` hands to its only water neighbour, which holds
/// `other`: half the difference, at least one unit, never more than it has.
pub open spec fn one_sided_share(fill: int, other: int) -> int {
    lesser(greater(1, (fill - other) / 2), fill)
}

/// Whether step three has a unit left over that only a coin can place, for a
/// cell that reaches the step holding `fill`.
pub open spec fn lateral_needs_coin(nb: Neighborhood, remain_min: int, fill: int) -> bool {
    match (nb.left, nb.right) {
        (Cell::Water(l), Cell::Water(r)) => {
            let budget = outflow_budget(fill, lesser(l.fill as int, r.fill as int), remain_min);
            let first = lesser(greater(l.fill - r.fill, r.fill - l.fill), budget);
            l.fill < fill && r.fill < fill && (budget - first) % 2 == 1
        },
        _ => false,
    }
}

/// Step three: the amounts handed to the left and to the right neighbour by a
/// cell that reaches the step holding `fill`.
///
/// With two lower water neighbours the lower one is first raised to the other,
/// then the rest of the budget is halved; a unit left over goes left when
/// `coin` is set and right when it is not. With one lower and one higher water
/// neighbour the whole budget goes to the lower. With a single water neighbour
/// that is lower, the one-sided share goes to it.
pub open spec fn lateral_share(nb: Neighborhood, remain_min: int, coin: bool, fill: int) -> (
    int,
    int,
) {
    match (nb.left, nb.right) {
        (Cell::Water(l), Cell::Water(r)) => {
            if l.fill < fill && r.fill < fill {
                let budget = outflow_budget(
                    fill,
                    lesser(l.fill as int, r.fill as int),
                    remain_min,
                );
                let first = lesser(greater(l.fill - r.fill, r.fill - l.fill), budget);
                let rest = budget - first;
                let odd = rest % 2 == 1;
                (
                    (if l.fill < r.fill {
                        first
                    } else {
                        0
                    }) + rest / 2 + (if odd && coin {
                        1int
                    } else {
                        0
                    }),
                    (if r.fill < l.fill {
                        first
                    } else {
                        0
                    }) + rest / 2 + (if odd && !coin {
                        1int
                    } else {
                        0
                    }),
                )
            } else if l.fill < fill {
                (outflow_budget(fill, l.fill as int, remain_min), 0)
            } else if r.fill < fill {
                (0, outflow_budget(fill, r.fill as int, remain_min))
            } else {
                (0, 0)
            }
        },
        (Cell::Water(l), _) => {
            if l.fill < fill {
                (one_sided_share(fill, l.fill as int), 0)
            } else {
                (0, 0)
            }
        },
        (_, Cell::Water(r)) => {
            if r.fill < fill {
                (0, one_sided_share(fill, r.fill as int))
            } else {
                (0, 0)
            }
        },
        _ => (0, 0),
    }
}

pub open spec fn after_lateral(nb: Neighborhood, remain_min: int, coin: bool, p: Pending) -> Pending {
    let share = lateral_share(nb, remain_min, coin, p.fill);
    p.send_left(share.0).send_right(share.1)
}

/// Step four: an overfull cell sends one unit up into a water cell that
/// holds at least two units less.
pub open spec fn after_relief(nb: Neighborhood, max_fill: int, p: Pending) -> Pending {
    if p.fill > max_fill && nb.above.is_water() && nb.above.fill() - p.fill < -1 {
        p.send_up(1)
    } else {
        p
    }
}

/// Step five: of two full cells on top of each other, the upper sends one
/// unit down unless it holds less than the lower.
pub open spec fn after_settling(nb: Neighborhood, max_fill: int, p: Pending) -> Pending {
    if p.fill >= max_fill && nb.below.is_water() && nb.below.fill() >= max_fill && p.fill
        >= nb.below.fill() {
        p.send_down(1)
    } else {
        p
    }
}

/// The first two steps.
pub open spec fn before_lateral(nb: Neighborhood, max_fill: int) -> Pending {
    after_gravity(
        nb,
        max_fill,
        after_vertical_inertia(nb, after_horizontal_inertia(nb, Pending::start(nb.center.fill()))),
    )
}

/// Whether the centre of the window acts at all: it is water and holds
/// something.
pub open spec fn acts(nb: Neighborhood) -> bool {
    nb.center.is_water() && nb.center.fill() > 0
}

/// Whether the outcome of the rule on this window depends on the coin.
pub open spec fn rule_needs_coin(nb: Neighborhood, max_fill: int, remain_min: int) -> bool {
    acts(nb) && lateral_needs_coin(nb, remain_min, before_lateral(nb, max_fill).fill)
}

/// What the centre of the window hands to its neighbours in one tick.
#[verifier::opaque]
pub open spec fn rule_flow(nb: Neighborhood, max_fill: int, remain_min: int, coin: bool) -> Flow {
    if acts(nb) {
        after_settling(
            nb,
            max_fill,
            after_relief(
                nb,
                max_fill,
                after_lateral(nb, remain_min, coin, before_lateral(nb, max_fill)),
            ),
        ).flow
    } else {
        Flow::none()
    }
}

/// The sideways amounts are not negative and together no more than the cell
/// holds; each goes to a water neighbour.
pub proof fn lemma_lateral_share(nb: Neighborhood, remain_min: int, coin: bool, fill: int)
    requires
        fill >= 0,
    ensures
        lateral_share(nb, remain_min, coin, fill).0 >= 0,
        lateral_share(nb, remain_min, coin, fill).1 >= 0,
        lateral_share(nb, remain_min, coin, fill).0 + lateral_share(nb, remain_min, coin, fill).1
            <= fill,
        lateral_share(nb, remain_min, coin, fill).0 > 0 ==> nb.left.is_water(),
        lateral_share(nb, remain_min, coin, fill).1 > 0 ==> nb.right.is_water(),
{
}

/// The inertia and gravity steps keep the books balanced.
pub proof fn lemma_first_steps_balanced(nb: Neighborhood, max_fill: int, p: Pending, start: int)
    requires
        p.balanced(nb, start),
    ensures
        after_horizontal_inertia(nb, p).balanced(nb, start),
        after_vertical_inertia(nb, p).balanced(nb, start),
        after_gravity(nb, max_fill, p).balanced(nb, start),
{
}

/// The sideways step keeps the books balanced.
pub proof fn lemma_lateral_balanced(
    nb: Neighborhood,
    remain_min: int,
    coin: bool,
    p: Pending,
    start: int,
)
    requires
        p.balanced(nb, start),
    ensures
        after_lateral(nb, remain_min, coin, p).balanced(nb, start),
{
    lemma_lateral_share(nb, remain_min, coin, p.fill);
    let share = lateral_share(nb, remain_min, coin, p.fill);
    let q = p.send_left(share.0);
    assert(q.balanced(nb, start));
    assert(q.send_right(share.1).balanced(nb, start));
}

/// The two pressure steps keep the books balanced.
pub proof fn lemma_pressure_balanced(nb: Neighborhood, max_fill: int, p: Pending, start: int)
    requires
        max_fill > 0,
        p.balanced(nb, start),
    ensures
        after_relief(nb, max_fill, p).balanced(nb, start),
        after_settling(nb, max_fill, p).balanced(nb, start),
{
}

/// The rule hands out no negative amount, in all no more than the centre
/// holds, and only to neighbours that are water.
pub proof fn lemma_rule_flow_bounded(nb: Neighborhood, max_fill: int, remain_min: int, coin: bool)
    requires
        max_fill > 0,
    ensures
        rule_flow(nb, max_fill, remain_min, coin).left >= 0,
        rule_flow(nb, max_fill, remain_min, coin).right >= 0,
        rule_flow(nb, max_fill, remain_min, coin).up >= 0,
        rule_flow(nb, max_fill, remain_min, coin).down >= 0,
        rule_flow(nb, max_fill, remain_min, coin).total() <= greater(0, nb.center.fill()),
        rule_flow(nb, max_fill, remain_min, coin).left > 0 ==> nb.left.is_water(),
        rule_flow(nb, max_fill, remain_min, coin).right > 0 ==> nb.right.is_water(),
        rule_flow(nb, max_fill, remain_min, coin).up > 0 ==> nb.above.is_water(),
        rule_flow(nb, max_fill, remain_min, coin).down > 0 ==> nb.below.is_water(),
        !acts(nb) ==> rule_flow(nb, max_fill, remain_min, coin) == Flow::none(),
{
    reveal(rule_flow);
    if acts(nb) {
        let start = nb.center.fill();
        let s0 = Pending::start(start);
        assert(s0.balanced(nb, start));
        let s1 = after_horizontal_inertia(nb, s0);
        lemma_first_steps_balanced(nb, max_fill, s0, start);
        let s2 = after_vertical_inertia(nb, s1);
        lemma_first_steps_balanced(nb, max_fill, s1, start);
        let s3 = after_gravity(nb, max_fill, s2);
        lemma_first_steps_balanced(nb, max_fill, s2, start);
        let s4 = after_lateral(nb, remain_min, coin, s3);
        lemma_lateral_balanced(nb, remain_min, coin, s3, start);
        let s5 = after_relief(nb, max_fill, s4);
        lemma_pressure_balanced(nb, max_fill, s4, start);
        let s6 = after_settling(nb, max_fill, s5);
        lemma_pressure_balanced(nb, max_fill, s5, start);
        assert(s6.balanced(nb, start));
    }
}

/// Whether the coin is set or not makes no difference to a window that needs
/// no coin.
pub proof fn lemma_coin_only_breaks_ties(nb: Neighborhood, max_fill: int, remain_min: int)
    requires
        !rule_needs_coin(nb, max_fill, remain_min),
    ensures
        rule_flow(nb, max_fill, remain_min, true) == rule_flow(nb, max_fill, remain_min, false),
{
    reveal(rule_flow);
    if acts(nb) {
        let p = before_lateral(nb, max_fill);
        assert(lateral_share(nb, remain_min, true, p.fill) == lateral_share(
            nb,
            remain_min,
            false,
            p.fill,
        ));
    }
}

/// The rule between two of its steps, in machine integers.
#[derive(Clone, Copy)]
struct Working {
    fill: i64,
    left: i64,
    right: i64,
    up: i64,
    down: i64,
}

impl Working {
    spec fn model(self) -> Pending {
        Pending {
            fill: self.fill as int,
            flow: Flow {
                left: self.left as int,
                right: self.right as int,
                up: self.up as int,
                down: self.down as int,
            },
        }
    }

    /// The books are balanced for the window `nb`.
    spec fn fits(self, nb: Neighborhood) -> bool {
        self.model().balanced(nb, nb.center.fill())
    }

    fn send_left(self, amount: i64) -> (r: Working)
        requires
            amount <= self.fill,
            0 <= self.left <= i32::MAX,
            0 <= self.fill <= i32::MAX,
        ensures
            r.model() == self.model().send_left(amount as int),
    {
        if amount > 0 {
            Working { fill: self.fill - amount, left: self.left + amount, ..self }
        } else {
            self
        }
    }

    fn send_right(self, amount: i64) -> (r: Working)
        requires
            amount <= self.fill,
            0 <= self.right <= i32::MAX,
            0 <= self.fill <= i32::MAX,
        ensures
            r.model() == self.model().send_right(amount as int),
    {
        if amount > 0 {
            Working { fill: self.fill - amount, right: self.right + amount, ..self }
        } else {
            self
        }
    }

    fn send_up(self, amount: i64) -> (r: Working)
        requires
            amount <= self.fill,
            0 <= self.up <= i32::MAX,
            0 <= self.fill <= i32::MAX,
        ensures
            r.model() == self.model().send_up(amount as int),
    {
        if amount > 0 {
            Working { fill: self.fill - amount, up: self.up + amount, ..self }
        } else {
            self
        }
    }

    fn send_down(self, amount: i64) -> (r: Working)
        requires
            amount <= self.fill,
            0 <= self.down <= i32::MAX,
            0 <= self.fill <= i32::MAX,
        ensures
            r.model() == self.model().send_down(amount as int),
    {
        if amount > 0 {
            Working { fill: self.fill - amount, down: self.down + amount, ..self }
        } else {
            self
        }
    }
}

fn lesser_of(a: i64, b: i64) -> (m: i64)
    ensures
        m == lesser(a as int, b as int),
{
    if a <= b {
        a
    } else {
        b
    }
}

fn holds_water(cell: &Cell) -> (b: bool)
    ensures
        b == cell.is_water(),
{
    match cell {
        Cell::Water(_) => true,
        _ => false,
    }
}

fn fill_of(cell: &Cell) -> (f: i64)
    ensures
        f == cell.fill(),
{
    match cell {
        Cell::Water(w) => w.fill as i64,
        _ => 0,
    }
}

fn horizontal_inertia(nb: &Neighborhood, w: Working) -> (r: Working)
    requires
        w.fits(*nb),
    ensures
        r.model() == after_horizontal_inertia(*nb, w.model()),
        r.fits(*nb),
{
    proof {
        lemma_first_steps_balanced(*nb, 1, w.model(), nb.center.fill());
    }
    let inertia: i64 = match nb.center {
        Cell::Water(c) => c.inertia_horiz as i64,
        _ => 0,
    };
    if inertia > 0 && holds_water(&nb.right) {
        w.send_right(lesser_of(inertia - 1, w.fill))
    } else if inertia < 0 && holds_water(&nb.left) {
        w.send_left(lesser_of(-inertia - 1, w.fill))
    } else {
        w
    }
}

fn vertical_inertia(nb: &Neighborhood, w: Working) -> (r: Working)
    requires
        w.fits(*nb),
    ensures
        r.model() == after_vertical_inertia(*nb, w.model()),
        r.fits(*nb),
{
    proof {
        lemma_first_steps_balanced(*nb, 1, w.model(), nb.center.fill());
    }
    let inertia: i64 = match nb.center {
        Cell::Water(c) => c.inertia_vert as i64,
        _ => 0,
    };
    if inertia > 0 && holds_water(&nb.below) {
        w.send_down(lesser_of(inertia - 1, w.fill))
    } else if inertia < 0 && holds_water(&nb.above) {
        w.send_up(lesser_of(-inertia - 1, w.fill))
    } else {
        w
    }
}

fn gravity(nb: &Neighborhood, max_fill: i32, w: Working) -> (r: Working)
    requires
        w.fits(*nb),
    ensures
        r.model() == after_gravity(*nb, max_fill as int, w.model()),
        r.fits(*nb),
{
    proof {
        lemma_first_steps_balanced(*nb, max_fill as int, w.model(), nb.center.fill());
    }
    let below: i64 = fill_of(&nb.below);
    if holds_water(&nb.below) && below < max_fill as i64 {
        w.send_down(lesser_of(max_fill as i64 - below, w.fill))
    } else {
        w
    }
}

fn budget(fill: i64, lowest: i64, remain_min: i32) -> (b: i64)
    requires
        0 <= fill <= i32::MAX,
        i32::MIN <= lowest <= i32::MAX,
    ensures
        b == outflow_budget(fill as int, lowest as int, remain_min as int),
{
    let wanted: i64 = lesser_of(fill - lowest + remain_min as i64, fill);
    if wanted > 0 {
        wanted
    } else {
        0
    }
}

fn one_sided(fill: i64, other: i64) -> (s: i64)
    requires
        0 <= fill <= i32::MAX,
        i32::MIN <= other < fill,
    ensures
        s == one_sided_share(fill as int, other as int),
{
    let half: i64 = (fill - other) / 2;
    let wanted: i64 = if half >= 1 {
        half
    } else {
        1
    };
    lesser_of(wanted, fill)
}

fn lateral_amounts(nb: &Neighborhood, remain_min: i32, coin: bool, fill: i64) -> (r: (i64, i64))
    requires
        0 <= fill <= i32::MAX,
    ensures
        r.0 == lateral_share(*nb, remain_min as int, coin, fill as int).0,
        r.1 == lateral_share(*nb, remain_min as int, coin, fill as int).1,
{
    match (nb.left, nb.right) {
        (Cell::Water(l), Cell::Water(r)) => {
            let lf: i64 = l.fill as i64;
            let rf: i64 = r.fill as i64;
            if lf < fill && rf < fill {
                let b: i64 = budget(fill, lesser_of(lf, rf), remain_min);
                let gap: i64 = if lf >= rf {
                    lf - rf
                } else {
                    rf - lf
                };
                let first: i64 = lesser_of(gap, b);
                let rest: i64 = b - first;
                let half: i64 = rest / 2;
                let odd: bool = rest % 2 == 1;
                let to_left: i64 = (if lf < rf {
                    first
                } else {
                    0
                }) + half + (if odd && coin {
                    1
                } else {
                    0
                });
                let to_right: i64 = (if rf < lf {
                    first
                } else {
                    0
                }) + half + (if odd && !coin {
                    1
                } else {
                    0
                });
                (to_left, to_right)
            } else if lf < fill {
                (budget(fill, lf, remain_min), 0)
            } else if rf < fill {
                (0, budget(fill, rf, remain_min))
            } else {
                (0, 0)
            }
        },
        (Cell::Water(l), _) => {
            if (l.fill as i64) < fill {
                (one_sided(fill, l.fill as i64), 0)
            } else {
                (0, 0)
            }
        },
        (_, Cell::Water(r)) => {
            if (r.fill as i64) < fill {
                (0, one_sided(fill, r.fill as i64))
            } else {
                (0, 0)
            }
        },
        _ => (0, 0),
    }
}

fn lateral_tie(nb: &Neighborhood, remain_min: i32, fill: i64) -> (b: bool)
    requires
        0 <= fill <= i32::MAX,
    ensures
        b == lateral_needs_coin(*nb, remain_min as int, fill as int),
{
    match (nb.left, nb.right) {
        (Cell::Water(l), Cell::Water(r)) => {
            let lf: i64 = l.fill as i64;
            let rf: i64 = r.fill as i64;
            if lf < fill && rf < fill {
                let b: i64 = budget(fill, lesser_of(lf, rf), remain_min);
                let gap: i64 = if lf >= rf {
                    lf - rf
                } else {
                    rf - lf
                };
                let first: i64 = lesser_of(gap, b);
                (b - first) % 2 == 1
            } else {
                false
            }
        },
        _ => false,
    }
}

fn lateral(nb: &Neighborhood, remain_min: i32, coin: bool, w: Working) -> (r: Working)
    requires
        w.fits(*nb),
    ensures
        r.model() == after_lateral(*nb, remain_min as int, coin, w.model()),
        r.fits(*nb),
{
    proof {
        lemma_lateral_balanced(*nb, remain_min as int, coin, w.model(), nb.center.fill());
        lemma_lateral_share(*nb, remain_min as int, coin, w.fill as int);
    }
    let share = lateral_amounts(nb, remain_min, coin, w.fill);
    w.send_left(share.0).send_right(share.1)
}

fn relief(nb: &Neighborhood, max_fill: i32, w: Working) -> (r: Working)
    requires
        max_fill > 0,
        w.fits(*nb),
    ensures
        r.model() == after_relief(*nb, max_fill as int, w.model()),
        r.fits(*nb),
{
    proof {
        lemma_pressure_balanced(*nb, max_fill as int, w.model(), nb.center.fill());
    }
    if w.fill > max_fill as i64 && holds_water(&nb.above) && fill_of(&nb.above) - w.fill < -1 {
        w.send_up(1)
    } else {
        w
    }
}

fn settling(nb: &Neighborhood, max_fill: i32, w: Working) -> (r: Working)
    requires
        max_fill > 0,
        w.fits(*nb),
    ensures
        r.model() == after_settling(*nb, max_fill as int, w.model()),
        r.fits(*nb),
{
    proof {
        lemma_pressure_balanced(*nb, max_fill as int, w.model(), nb.center.fill());
    }
    let below: i64 = fill_of(&nb.below);
    if w.fill >= max_fill as i64 && holds_water(&nb.below) && below >= max_fill as i64 && w.fill
        >= below {
        w.send_down(1)
    } else {
        w
    }
}

fn centre_acts(nb: &Neighborhood) -> (b: bool)
    ensures
        b == acts(*nb),
{
    holds_water(&nb.center) && fill_of(&nb.center) > 0
}

fn first_steps(nb: &Neighborhood, max_fill: i32) -> (r: Working)
    requires
        acts(*nb),
    ensures
        r.model() == before_lateral(*nb, max_fill as int),
        r.fits(*nb),
{
    let w = Working { fill: fill_of(&nb.center), left: 0, right: 0, up: 0, down: 0 };
    let w = horizontal_inertia(nb, w);
    let w = vertical_inertia(nb, w);
    gravity(nb, max_fill, w)
}

/// Whether the outcome of the rule on this window depends on the coin.
pub fn needs_coin(nb: &Neighborhood, max_fill: i32, remain_min: i32) -> (b: bool)
    ensures
        b == rule_needs_coin(*nb, max_fill as int, remain_min as int),
{
    if centre_acts(nb) {
        let w = first_steps(nb, max_fill);
        lateral_tie(nb, remain_min, w.fill)
    } else {
        false
    }
}

/// The flow rule with the coin given: the changes that the centre of the
/// window makes to itself and to its neighbours in one tick.
pub fn rule_with_coin(nb: &Neighborhood, max_fill: i32, remain_min: i32, coin: bool) -> (d: Deltas)
    requires
        max_fill > 0,
    ensures
        d.carries(rule_flow(*nb, max_fill as int, remain_min as int, coin)),
{
    proof {
        reveal(rule_flow);
    }
    if centre_acts(nb) {
        let w = first_steps(nb, max_fill);
        let w = lateral(nb, remain_min, coin, w);
        let w = relief(nb, max_fill, w);
        let w = settling(nb, max_fill, w);
        Deltas {
            above_left: 0,
            above: w.up,
            above_right: 0,
            left: w.left,
            center: -(w.left + w.right + w.up + w.down),
            right: w.right,
            below_left: 0,
            below: w.down,
            below_right: 0,
        }
    } else {
        Deltas::zero()
    }
}

/// The coin for a window: drawn from the generator where the outcome of the
/// rule depends on it, unset where it does not.
pub fn coin_for(nb: &Neighborhood, max_fill: i32, remain_min: i32, rng: &mut StdRng) -> (coin: bool)
    ensures
        !rule_needs_coin(*nb, max_fill as int, remain_min as int) ==> !coin,
{
    if needs_coin(nb, max_fill, remain_min) {
        draw_bit(rng) == 1
    } else {
        false
    }
}

/// The flow rule with a generator: a coin is drawn only for a window whose
/// outcome depends on it.
pub fn rule(nb: &Neighborhood, max_fill: i32, remain_min: i32, rng: &mut StdRng) -> (d: Deltas)
    requires
        max_fill > 0,
    ensures
        exists|coin: bool| d.carries(rule_flow(*nb, max_fill as int, remain_min as int, coin)),
        !rule_needs_coin(*nb, max_fill as int, remain_min as int) ==> d.carries(
            rule_flow(*nb, max_fill as int, remain_min as int, false),
        ),
{
    let coin = coin_for(nb, max_fill, remain_min, rng);
    proof {
        if !rule_needs_coin(*nb, max_fill as int, remain_min as int) {
            lemma_coin_only_breaks_ties(*nb, max_fill as int, remain_min as int);
        }
    }
    rule_with_coin(nb, max_fill, remain_min, coin)
}

} // verus!
