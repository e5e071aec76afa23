//! Power-ups: what kinds there are, how a destroyed brick drops one, how
//! they fall, and how long their effects last.

use vstd::prelude::*;
use crate::game_object::Color;
use crate::game_object::GameObject;
use crate::game_object::Sprite;
use crate::math::Vec2;
use crate::math::COORD_MAX;

verus! {

/// Of so many destroyed bricks, one drops a power-up.
pub const DROP_ODDS: u32 = 75;

/// Width of a falling power-up.
pub const POWER_UP_WIDTH: i64 = 60_000;

/// Height of a falling power-up.
pub const POWER_UP_HEIGHT: i64 = 20_000;

/// Speed at which a power-up falls, in pixels per second.
pub const POWER_UP_FALL: i64 = 150;

/// The kinds of power-up.
#[derive(Clone, Copy, Debug, PartialEq, Eq, Structural)]
pub enum PowerUpKind {
    Speed,
    Sticky,
    PassThrough,
    PadSizeIncrease,
    Confuse,
    Chaos,
}

/// A power-up, falling or in effect.
#[derive(Clone, Copy, Debug, PartialEq, Eq, Structural)]
pub struct PowerUp {
    pub object: GameObject,
    pub kind: PowerUpKind,
    /// Milliseconds that the effect still lasts once it is activated.
    pub duration: i64,
    pub activated: bool,
}

impl PowerUpKind {
    /// Whether the effect helps the player. Confusion and chaos do not.
    pub open spec fn positive(self) -> bool {
        match self {
            PowerUpKind::Confuse => false,
            PowerUpKind::Chaos => false,
            _ => true,
        }
    }

    /// How long the effect lasts, in milliseconds. Speed and paddle size
    /// change once and for good, so their effect has no duration.
    pub open spec fn lasts(self) -> i64 {
        match self {
            PowerUpKind::Speed => 0,
            PowerUpKind::Sticky => 20_000,
            PowerUpKind::PassThrough => 10_000,
            PowerUpKind::PadSizeIncrease => 0,
            PowerUpKind::Confuse => 15_000,
            PowerUpKind::Chaos => 15_000,
        }
    }

    /// The tint of the falling power-up.
    pub open spec fn tint(self) -> Color {
        match self {
            PowerUpKind::Speed => Color { r: 500, g: 500, b: 1000 },
            PowerUpKind::Sticky => Color { r: 1000, g: 500, b: 1000 },
            PowerUpKind::PassThrough => Color { r: 500, g: 1000, b: 500 },
            PowerUpKind::PadSizeIncrease => Color { r: 1000, g: 600, b: 400 },
            PowerUpKind::Confuse => Color { r: 1000, g: 300, b: 300 },
            PowerUpKind::Chaos => Color { r: 900, g: 250, b: 250 },
        }
    }

    /// The picture of the falling power-up.
    pub open spec fn picture(self) -> Sprite {
        match self {
            PowerUpKind::Speed => Sprite::PowerUpSpeed,
            PowerUpKind::Sticky => Sprite::PowerUpSticky,
            PowerUpKind::PassThrough => Sprite::PowerUpPassThrough,
            PowerUpKind::PadSizeIncrease => Sprite::PowerUpIncrease,
            PowerUpKind::Confuse => Sprite::PowerUpConfuse,
            PowerUpKind::Chaos => Sprite::PowerUpChaos,
        }
    }

    /// The kind with the given number, counting from zero in the order of
    /// declaration and starting over after the last.
    pub open spec fn numbered(n: int) -> PowerUpKind {
        let k = n % 6;
        if k == 0 {
            PowerUpKind::Speed
        } else if k == 1 {
            PowerUpKind::Sticky
        } else if k == 2 {
            PowerUpKind::PassThrough
        } else if k == 3 {
            PowerUpKind::PadSizeIncrease
        } else if k == 4 {
            PowerUpKind::Confuse
        } else {
            PowerUpKind::Chaos
        }
    }

    /// Whether the effect helps the player.
    pub fn is_positive(self) -> (yes: bool)
        ensures
            yes == self.positive(),
    {
        match self {
            PowerUpKind::Confuse => false,
            PowerUpKind::Chaos => false,
            _ => true,
        }
    }

    /// How long the effect lasts, in milliseconds.
    pub fn duration(self) -> (ms: i64)
        ensures
            ms == self.lasts(),
    {
        match self {
            PowerUpKind::Speed => 0,
            PowerUpKind::Sticky => 20_000,
            PowerUpKind::PassThrough => 10_000,
            PowerUpKind::PadSizeIncrease => 0,
            PowerUpKind::Confuse => 15_000,
            PowerUpKind::Chaos => 15_000,
        }
    }

    /// The tint of the falling power-up.
    pub fn color(self) -> (color: Color)
        ensures
            color == self.tint(),
    {
        match self {
            PowerUpKind::Speed => Color { r: 500, g: 500, b: 1000 },
            PowerUpKind::Sticky => Color { r: 1000, g: 500, b: 1000 },
            PowerUpKind::PassThrough => Color { r: 500, g: 1000, b: 500 },
            PowerUpKind::PadSizeIncrease => Color { r: 1000, g: 600, b: 400 },
            PowerUpKind::Confuse => Color { r: 1000, g: 300, b: 300 },
            PowerUpKind::Chaos => Color { r: 900, g: 250, b: 250 },
        }
    }

    /// The picture of the falling power-up.
    pub fn sprite(self) -> (sprite: Sprite)
        ensures
            sprite == self.picture(),
    {
        match self {
            PowerUpKind::Speed => Sprite::PowerUpSpeed,
            PowerUpKind::Sticky => Sprite::PowerUpSticky,
            PowerUpKind::PassThrough => Sprite::PowerUpPassThrough,
            PowerUpKind::PadSizeIncrease => Sprite::PowerUpIncrease,
            PowerUpKind::Confuse => Sprite::PowerUpConfuse,
            PowerUpKind::Chaos => Sprite::PowerUpChaos,
        }
    }

    /// The kind with the given number, starting over after the last.
    pub fn from_number(n: u32) -> (kind: PowerUpKind)
        ensures
            kind == PowerUpKind::numbered(n as int),
    {
        let k = n % 6;
        if k == 0 {
            PowerUpKind::Speed
        } else if k == 1 {
            PowerUpKind::Sticky
        } else if k == 2 {
            PowerUpKind::PassThrough
        } else if k == 3 {
            PowerUpKind::PadSizeIncrease
        } else if k == 4 {
            PowerUpKind::Confuse
        } else {
            PowerUpKind::Chaos
        }
    }
}

/// The power-up of a kind as it starts to fall from `position`.
pub open spec fn dropped(kind: PowerUpKind, position: Vec2) -> PowerUp {
    PowerUp {
        object: GameObject {
            position,
            size: Vec2 { x: POWER_UP_WIDTH, y: POWER_UP_HEIGHT },
            velocity: Vec2 { x: 0, y: POWER_UP_FALL },
            color: kind.tint(),
            rotation: 0,
            sprite: kind.picture(),
            is_solid: false,
            destroyed: false,
        },
        kind,
        duration: kind.lasts(),
        activated: false,
    }
}

/// What a destroyed brick drops, given two random draws: with the first
/// it drops a power-up once in `DROP_ODDS` times, and the second picks the
/// kind, each kind as likely as any other.
pub open spec fn drop_of(gate: u32, pick: u32) -> Option<PowerUpKind> {
    if gate % DROP_ODDS == 0 {
        Some(PowerUpKind::numbered(pick as int))
    } else {
        None
    }
}

/// Decides what a destroyed brick drops, given two random draws.
pub fn roll_power_up(gate: u32, pick: u32) -> (kind: Option<PowerUpKind>)
    ensures
        kind == drop_of(gate, pick),
{
    if gate % DROP_ODDS == 0 {
        Some(PowerUpKind::from_number(pick))
    } else {
        None
    }
}

/// The power-up `dt` milliseconds further down, no further than the
/// coordinates reach.
pub open spec fn fallen(p: PowerUp, dt: u32) -> PowerUp {
    let y = p.object.position.y + p.object.velocity.y * dt;
    let to = if y > COORD_MAX {
        COORD_MAX as int
    } else if y < -COORD_MAX {
        -COORD_MAX as int
    } else {
        y
    };
    PowerUp {
        object: GameObject { position: Vec2 { x: p.object.position.x, y: to as i64 }, ..p.object },
        ..p
    }
}

/// Every falling power-up `dt` milliseconds further down.
pub open spec fn fallen_all(falling: Seq<PowerUp>, dt: u32) -> Seq<PowerUp> {
    Seq::new(falling.len(), |i: int| fallen(falling[i], dt))
}

/// The effect `dt` milliseconds later, if anything is left of it.
pub open spec fn ticked(p: PowerUp, dt: u32) -> Option<PowerUp> {
    if p.duration > dt {
        Some(PowerUp { duration: (p.duration - dt) as i64, ..p })
    } else {
        None
    }
}

/// The effects that are left `dt` milliseconds later, in their order, each
/// with that much less to last. One whose time is up is no longer among them.
pub open spec fn survivors(active: Seq<PowerUp>, dt: u32) -> Seq<PowerUp>
    decreases active.len(),
{
    if active.len() == 0 {
        Seq::empty()
    } else {
        match ticked(active.last(), dt) {
            Some(p) => survivors(active.drop_last(), dt).push(p),
            None => survivors(active.drop_last(), dt),
        }
    }
}

/// Whether the time of an active effect of the kind is up after `dt`
/// milliseconds.
pub open spec fn expired_kind(active: Seq<PowerUp>, dt: u32, kind: PowerUpKind) -> bool {
    exists|i: int|
        0 <= i < active.len() && (#[trigger] active[i]).kind == kind && active[i].duration <= dt
}

/// Whether an effect of the kind is among the active ones.
pub open spec fn has_kind(active: Seq<PowerUp>, kind: PowerUpKind) -> bool {
    exists|i: int| 0 <= i < active.len() && (#[trigger] active[i]).kind == kind
}

impl PowerUp {
    /// The object is within limits, looks as its kind says, and the effect
    /// lasts no longer than its kind's does.
    pub open spec fn wf(&self) -> bool {
        &&& self.object.wf()
        &&& 0 <= self.duration <= self.kind.lasts()
    }

    /// A power-up of the kind that starts to fall from `position`.
    pub fn new(kind: PowerUpKind, position: Vec2) -> (p: PowerUp)
        requires
            position.within(COORD_MAX as int),
        ensures
            p == dropped(kind, position),
            p.wf(),
    {
        PowerUp {
            object: GameObject {
                position,
                size: Vec2 { x: POWER_UP_WIDTH, y: POWER_UP_HEIGHT },
                velocity: Vec2 { x: 0, y: POWER_UP_FALL },
                color: kind.color(),
                rotation: 0,
                sprite: kind.sprite(),
                is_solid: false,
                destroyed: false,
            },
            kind,
            duration: kind.duration(),
            activated: false,
        }
    }

    /// Lets the power-up fall for `dt` milliseconds.
    pub fn fall(&mut self, dt: u32)
        requires
            old(self).wf(),
        ensures
            *final(self) == fallen(*old(self), dt),
            final(self).wf(),
    {
        let vy: i64 = self.object.velocity.y;
        assert(-1_000_000 * 0xFFFF_FFFF <= vy * dt <= 1_000_000 * 0xFFFF_FFFF) by (nonlinear_arith)
            requires
                -1_000_000 <= vy <= 1_000_000,
                0 <= dt <= 0xFFFF_FFFF,
        ;
        let y: i64 = self.object.position.y + vy * (dt as i64);
        self.object.position.y = if y > COORD_MAX {
            COORD_MAX
        } else if y < -COORD_MAX {
            -COORD_MAX
        } else {
            y
        };
    }
}

/// Lets every falling power-up fall for `dt` milliseconds.
pub fn let_fall(falling: &mut Vec<PowerUp>, dt: u32)
    requires
        forall|i: int| 0 <= i < old(falling)@.len() ==> (#[trigger] old(falling)@[i]).wf(),
    ensures
        final(falling)@ == fallen_all(old(falling)@, dt),
        forall|i: int| 0 <= i < final(falling)@.len() ==> (#[trigger] final(falling)@[i]).wf(),
{
    let n = falling.len();
    let mut i: usize = 0;
    while i < n
        invariant
            i <= n,
            n == falling@.len(),
            n == old(falling)@.len(),
            forall|j: int| 0 <= j < i ==> falling@[j] == fallen(old(falling)@[j], dt),
            forall|j: int| i <= j < n ==> falling@[j] == old(falling)@[j],
            forall|j: int| 0 <= j < n ==> (#[trigger] falling@[j]).wf(),
        decreases n - i,
    {
        let mut p = falling[i];
        p.fall(dt);
        falling.set(i, p);
        i += 1;
    }
    proof {
        assert(falling@ =~= fallen_all(old(falling)@, dt));
    }
}

/// Lets the active effects age by `dt` milliseconds and drops those whose
/// time is up.
pub fn tick_active(active: &mut Vec<PowerUp>, dt: u32)
    requires
        forall|i: int| 0 <= i < old(active)@.len() ==> (#[trigger] old(active)@[i]).wf(),
    ensures
        final(active)@ == survivors(old(active)@, dt),
        forall|i: int| 0 <= i < final(active)@.len() ==> (#[trigger] final(active)@[i]).wf(),
{
    let mut kept: Vec<PowerUp> = Vec::new();
    let mut i: usize = 0;
    proof {
        assert(active@.take(0) =~= Seq::<PowerUp>::empty());
    }
    while i < active.len()
        invariant
            i <= active@.len(),
            active@ == old(active)@,
            forall|j: int| 0 <= j < active@.len() ==> (#[trigger] active@[j]).wf(),
            kept@ == survivors(active@.take(i as int), dt),
            forall|j: int| 0 <= j < kept@.len() ==> (#[trigger] kept@[j]).wf(),
        decreases active@.len() - i,
    {
        let p = active[i];
        proof {
            assert(active@.take(i + 1).drop_last() =~= active@.take(i as int));
            assert(active@.take(i + 1).last() == p);
            assert(p.wf());
        }
        if p.duration > dt as i64 {
            kept.push(
                PowerUp {
                    object: p.object,
                    kind: p.kind,
                    duration: p.duration - dt as i64,
                    activated: p.activated,
                },
            );
        }
        i += 1;
    }
    proof {
        assert(active@.take(active@.len() as int) =~= active@);
    }
    *active = kept;
}

/// Whether an effect of the kind is among the active ones.
pub fn is_other_power_up_active(active: &Vec<PowerUp>, kind: PowerUpKind) -> (yes: bool)
    ensures
        yes == has_kind(active@, kind),
{
    let mut i: usize = 0;
    while i < active.len()
        invariant
            i <= active@.len(),
            forall|j: int| 0 <= j < i ==> (#[trigger] active@[j]).kind != kind,
        decreases active@.len() - i,
    {
        if active[i].kind == kind {
            return true;
        }
        i += 1;
    }
    false
}

/// Whether the time of an active effect of the kind is up after `dt`
/// milliseconds.
pub fn any_expired(active: &Vec<PowerUp>, dt: u32, kind: PowerUpKind) -> (yes: bool)
    ensures
        yes == expired_kind(active@, dt, kind),
{
    let mut i: usize = 0;
    while i < active.len()
        invariant
            i <= active@.len(),
            forall|j: int|
                0 <= j < i ==> !((#[trigger] active@[j]).kind == kind && active@[j].duration <= dt),
        decreases active@.len() - i,
    {
        if active[i].kind == kind && active[i].duration <= dt as i64 {
            return true;
        }
        i += 1;
    }
    false
}

/// How many of the effects last longer than `dt` milliseconds.
pub open spec fn lasting_count(active: Seq<PowerUp>, dt: u32) -> nat
    decreases active.len(),
{
    if active.len() == 0 {
        0
    } else {
        lasting_count(active.drop_last(), dt) + if active.last().duration > dt {
            1nat
        } else {
            0nat
        }
    }
}

/// An effect whose time is up leaves the active ones, and only such an
/// effect does: as many are left as last longer than the time that passed,
/// and each of those has time left.
pub proof fn lemma_survivors_are_the_lasting(active: Seq<PowerUp>, dt: u32)
    ensures
        survivors(active, dt).len() == lasting_count(active, dt),
        forall|j: int|
            0 <= j < survivors(active, dt).len() ==> (#[trigger] survivors(active, dt)[j]).duration
                > 0,
    decreases active.len(),
{
    if active.len() > 0 {
        lemma_survivors_are_the_lasting(active.drop_last(), dt);
    }
}

/// An effect leaves the active ones once: when no time passes, those that
/// were left stay.
pub proof fn lemma_removed_once(active: Seq<PowerUp>, dt: u32)
    ensures
        survivors(survivors(active, dt), 0) == survivors(active, dt),
    decreases active.len(),
{
    if active.len() > 0 {
        lemma_removed_once(active.drop_last(), dt);
        match ticked(active.last(), dt) {
            Some(p) => {
                let rest = survivors(active.drop_last(), dt);
                assert(rest.push(p).drop_last() =~= rest);
                assert(rest.push(p).last() == p);
                assert(ticked(p, 0) == Some(p));
            },
            None => {},
        }
    } else {
        assert(survivors(active, dt) =~= Seq::<PowerUp>::empty());
    }
}

/// An effect of a kind stays among the active ones as long as one of that
/// kind has time left, and is gone only when the last of them has run out.
pub proof fn lemma_kind_lasts_with_its_last(active: Seq<PowerUp>, dt: u32, kind: PowerUpKind)
    ensures
        has_kind(survivors(active, dt), kind) <==> exists|i: int|
            0 <= i < active.len() && (#[trigger] active[i]).kind == kind && active[i].duration > dt,
    decreases active.len(),
{
    if active.len() > 0 {
        let before = active.drop_last();
        let last = active.last();
        lemma_kind_lasts_with_its_last(before, dt, kind);
        let left = survivors(before, dt);
        if has_kind(survivors(active, dt), kind) {
            let j = choose|j: int|
                0 <= j < survivors(active, dt).len() && (#[trigger] survivors(active, dt)[j]).kind
                    == kind;
            if j < left.len() {
                assert(left[j].kind == kind);
                assert(has_kind(left, kind));
                let i = choose|i: int|
                    0 <= i < before.len() && (#[trigger] before[i]).kind == kind
                        && before[i].duration > dt;
                assert(active[i].kind == kind && active[i].duration > dt);
            } else {
                assert(active[active.len() - 1].kind == kind && active[active.len() - 1].duration
                    > dt);
            }
        }
        if exists|i: int|
            0 <= i < active.len() && (#[trigger] active[i]).kind == kind && active[i].duration
                > dt {
            let i = choose|i: int|
                0 <= i < active.len() && (#[trigger] active[i]).kind == kind && active[i].duration
                    > dt;
            if i < before.len() {
                assert(before[i].kind == kind && before[i].duration > dt);
                assert(has_kind(left, kind));
                let j = choose|j: int| 0 <= j < left.len() && (#[trigger] left[j]).kind == kind;
                assert(survivors(active, dt)[j].kind == kind);
            } else {
                let p = ticked(last, dt)->0;
                assert(survivors(active, dt)[left.len() as int] == p);
                assert(survivors(active, dt)[left.len() as int].kind == kind);
            }
        }
    }
}

} // verus!
