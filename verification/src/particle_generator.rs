//! A pool of short-lived particles that trail an object. The pool never
//! grows: a new particle takes the place of a dead one.

use vstd::prelude::*;
use crate::game_object::Color;
use crate::game_object::GameObject;
use crate::math::div_toward_zero;
use crate::math::toward_zero;
use crate::math::Vec2;
use crate::math::COORD_MAX;
use crate::math::SPEED_MAX;
use crate::rng::next_state;
use crate::rng::output_of;
use crate::rng::Rng;

verus! {

/// How long a particle lives, in milliseconds.
pub const PARTICLE_LIFE: i64 = 1000;

/// Furthest that a particle can be from the origin along one axis.
pub const PARTICLE_REACH: i64 = 0x2000_0000_0000 + 5000 + 100_000_000;

/// One particle.
#[derive(Clone, Copy, Debug, PartialEq, Eq, Structural)]
pub struct Particle {
    pub position: Vec2,
    /// Speed along each axis, in pixels per second.
    pub velocity: Vec2,
    pub color: Color,
    /// Opacity in thousandths; it fades with the remaining life.
    pub alpha: u16,
    /// Milliseconds left to live; a particle at zero is dead.
    pub life: i64,
}

/// The particles and the slot that was filled last.
pub struct ParticleGenerator {
    pub particles: Vec<Particle>,
    pub last_used: usize,
}

impl Particle {
    /// Whether the particle has life left.
    pub open spec fn alive(self) -> bool {
        self.life > 0
    }

    /// A particle lives no longer than a full life, is no faster than a tenth
    /// of the fastest object, and has drifted from where it was born no
    /// further than its speed allows in the time it has lived.
    pub open spec fn wf(self) -> bool {
        &&& 0 <= self.life <= PARTICLE_LIFE
        &&& self.velocity.within(SPEED_MAX as int / 10)
        &&& self.position.within(
            PARTICLE_REACH as int - (SPEED_MAX as int / 10) * self.life,
        )
    }
}

/// A dead particle at the origin.
pub open spec fn dead_particle() -> Particle {
    Particle {
        position: Vec2 { x: 0, y: 0 },
        velocity: Vec2 { x: 0, y: 0 },
        color: Color { r: 1000, g: 1000, b: 1000 },
        alpha: 0,
        life: 0,
    }
}

/// How many particles of the pool are alive.
pub open spec fn live_count(pool: Seq<Particle>) -> nat
    decreases pool.len(),
{
    if pool.len() == 0 {
        0
    } else {
        live_count(pool.drop_last()) + if pool.last().alive() {
            1nat
        } else {
            0nat
        }
    }
}

/// The first dead particle among the slots from `low` up to, not
/// including, `high`.
pub open spec fn first_dead_in(pool: Seq<Particle>, low: int, high: int) -> Option<int>
    decreases high - low,
{
    if low >= high {
        None
    } else if !pool[low].alive() {
        Some(low)
    } else {
        first_dead_in(pool, low + 1, high)
    }
}

/// The slot that the next particle takes: the first dead one from the
/// cursor on, else the first dead one before the cursor, else, with every
/// particle alive, the first slot of the pool.
pub open spec fn unused_slot(pool: Seq<Particle>, cursor: int) -> int {
    match first_dead_in(pool, cursor, pool.len() as int) {
        Some(slot) => slot,
        None => match first_dead_in(pool, 0, cursor) {
            Some(slot) => slot,
            None => 0,
        },
    }
}

/// The particle born at an object. The two random draws jitter its place
/// by up to five pixels either way, the same along both axes, and set its
/// brightness between a half and one and a half; it starts opaque, with a
/// full life and a tenth of the object's velocity.
pub open spec fn respawned(object: GameObject, offset: Vec2, jitter: u32, brightness: u32) -> Particle {
    let random = ((jitter % 100) as int - 50) * 100;
    let shade = (500 + (brightness % 100) * 10) as u16;
    Particle {
        position: Vec2 {
            x: (object.position.x + random + offset.x) as i64,
            y: (object.position.y + random + offset.y) as i64,
        },
        velocity: Vec2 {
            x: toward_zero(object.velocity.x as int, 10) as i64,
            y: toward_zero(object.velocity.y as int, 10) as i64,
        },
        color: Color { r: shade, g: shade, b: shade },
        alpha: 1000,
        life: PARTICLE_LIFE,
    }
}

/// The particle `dt` milliseconds later: with life left it has moved along
/// its velocity and faded to the share of its life that is left; else it is
/// dead and invisible where it was.
pub open spec fn decayed(p: Particle, dt: u32) -> Particle {
    if p.life > dt {
        Particle {
            position: Vec2 {
                x: (p.position.x + p.velocity.x * dt) as i64,
                y: (p.position.y + p.velocity.y * dt) as i64,
            },
            alpha: (1000 * (p.life - dt) / PARTICLE_LIFE as int) as u16,
            life: (p.life - dt) as i64,
            ..p
        }
    } else {
        Particle { alpha: 0, life: 0, ..p }
    }
}

/// Every particle of the pool `dt` milliseconds later.
pub open spec fn decayed_all(pool: Seq<Particle>, dt: u32) -> Seq<Particle> {
    Seq::new(pool.len(), |i: int| decayed(pool[i], dt))
}

/// Pool, cursor and generator state after `count` particles were born at
/// `object`, one after the other, each in the slot unused at its turn, with
/// two draws from the generator each. An empty pool takes none and draws
/// nothing.
pub open spec fn spawned(
    pool: Seq<Particle>,
    cursor: int,
    rng: u64,
    object: GameObject,
    offset: Vec2,
    count: nat,
) -> (Seq<Particle>, int, u64)
    decreases count,
{
    if count == 0 || pool.len() == 0 {
        (pool, cursor, rng)
    } else {
        let (before, at, state) = spawned(pool, cursor, rng, object, offset, (count - 1) as nat);
        let slot = unused_slot(before, at);
        let first = next_state(state);
        let second = next_state(first);
        (
            before.update(slot, respawned(object, offset, output_of(first), output_of(second))),
            slot,
            second,
        )
    }
}

impl ParticleGenerator {
    /// The cursor points into the pool, and every particle is within limits.
    pub open spec fn wf(&self) -> bool {
        &&& self.last_used < self.particles@.len() || (self.last_used == 0
            && self.particles@.len() == 0)
        &&& forall|i: int| 0 <= i < self.particles@.len() ==> (#[trigger] self.particles@[i]).wf()
    }

    /// A pool of `amount` particles, all dead.
    pub fn new(amount: usize) -> (generator: ParticleGenerator)
        ensures
            generator.wf(),
            generator.last_used == 0,
            generator.particles@ == Seq::new(amount as nat, |i: int| dead_particle()),
    {
        let mut particles: Vec<Particle> = Vec::new();
        let mut i: usize = 0;
        while i < amount
            invariant
                i <= amount,
                particles@ == Seq::new(i as nat, |j: int| dead_particle()),
            decreases amount - i,
        {
            particles.push(
                Particle {
                    position: Vec2 { x: 0, y: 0 },
                    velocity: Vec2 { x: 0, y: 0 },
                    color: Color { r: 1000, g: 1000, b: 1000 },
                    alpha: 0,
                    life: 0,
                },
            );
            assert(particles@ =~= Seq::new((i + 1) as nat, |j: int| dead_particle()));
            i += 1;
        }
        ParticleGenerator { particles, last_used: 0 }
    }

    /// Finds the slot for the next particle and moves the cursor there.
    pub fn first_unused_particle(&mut self) -> (slot: usize)
        requires
            old(self).wf(),
            old(self).particles@.len() > 0,
        ensures
            final(self).wf(),
            final(self).particles@ == old(self).particles@,
            slot as int == unused_slot(old(self).particles@, old(self).last_used as int),
            final(self).last_used == slot,
            slot < old(self).particles@.len(),
    {
        let n = self.particles.len();
        let start = self.last_used;
        let mut i: usize = start;
        while i < n
            invariant
                start <= i <= n,
                n == self.particles@.len(),
                start == old(self).last_used,
                self.wf(),
                *self == *old(self),
                first_dead_in(self.particles@, start as int, n as int) == first_dead_in(
                    self.particles@,
                    i as int,
                    n as int,
                ),
            decreases n - i,
        {
            if self.particles[i].life <= 0 {
                self.last_used = i;
                return i;
            }
            i += 1;
        }
        let mut j: usize = 0;
        while j < start
            invariant
                j <= start < n,
                n == self.particles@.len(),
                start == old(self).last_used,
                self.wf(),
                *self == *old(self),
                first_dead_in(self.particles@, start as int, n as int) is None,
                first_dead_in(self.particles@, 0, start as int) == first_dead_in(
                    self.particles@,
                    j as int,
                    start as int,
                ),
            decreases start - j,
        {
            if self.particles[j].life <= 0 {
                self.last_used = j;
                return j;
            }
            j += 1;
        }
        self.last_used = 0;
        0
    }

    /// Lets a particle be born at `object` in the slot `slot`.
    pub fn respawn_particle(
        &mut self,
        slot: usize,
        object: &GameObject,
        offset: Vec2,
        jitter: u32,
        brightness: u32,
    )
        requires
            old(self).wf(),
            slot < old(self).particles@.len(),
            object.wf(),
            offset.within(COORD_MAX as int),
        ensures
            final(self).wf(),
            final(self).last_used == old(self).last_used,
            final(self).particles@ == old(self).particles@.update(
                slot as int,
                respawned(*object, offset, jitter, brightness),
            ),
    {
        let random: i64 = ((jitter % 100) as i64 - 50) * 100;
        let shade: u16 = (500 + (brightness % 100) * 10) as u16;
        let particle = Particle {
            position: Vec2 {
                x: object.position.x + random + offset.x,
                y: object.position.y + random + offset.y,
            },
            velocity: Vec2 {
                x: div_toward_zero(object.velocity.x, 10),
                y: div_toward_zero(object.velocity.y, 10),
            },
            color: Color { r: shade, g: shade, b: shade },
            alpha: 1000,
            life: PARTICLE_LIFE,
        };
        proof {
            lemma_tenth(object.velocity.x as int);
            lemma_tenth(object.velocity.y as int);
        }
        self.particles.set(slot, particle);
    }

    /// One frame of the pool: `new_particles` particles are born at
    /// `object`, shifted by `offset`, then every particle ages by `dt`
    /// milliseconds.
    pub fn update(
        &mut self,
        dt: u32,
        object: &GameObject,
        new_particles: u32,
        offset: Vec2,
        rng: &mut Rng,
    )
        requires
            old(self).wf(),
            object.wf(),
            offset.within(COORD_MAX as int),
        ensures
            final(self).wf(),
            final(self).particles@.len() == old(self).particles@.len(),
            final(self).particles@ == decayed_all(
                spawned(
                    old(self).particles@,
                    old(self).last_used as int,
                    old(rng).state,
                    *object,
                    offset,
                    new_particles as nat,
                ).0,
                dt,
            ),
            final(self).last_used as int == spawned(
                old(self).particles@,
                old(self).last_used as int,
                old(rng).state,
                *object,
                offset,
                new_particles as nat,
            ).1,
            final(rng).state == spawned(
                old(self).particles@,
                old(self).last_used as int,
                old(rng).state,
                *object,
                offset,
                new_particles as nat,
            ).2,
    {
        self.spawn(object, new_particles, offset, rng);
        self.age_all(dt);
    }

    /// Lets `count` particles be born at `object`, one after the other.
    fn spawn(&mut self, object: &GameObject, count: u32, offset: Vec2, rng: &mut Rng)
        requires
            old(self).wf(),
            object.wf(),
            offset.within(COORD_MAX as int),
        ensures
            final(self).wf(),
            (final(self).particles@, final(self).last_used as int, final(rng).state) == spawned(
                old(self).particles@,
                old(self).last_used as int,
                old(rng).state,
                *object,
                offset,
                count as nat,
            ),
            final(self).particles@.len() == old(self).particles@.len(),
    {
        let n = self.particles.len();
        if n > 0 {
            let mut k: u32 = 0;
            while k < count
                invariant
                    k <= count,
                    self.wf(),
                    object.wf(),
                    offset.within(COORD_MAX as int),
                    n == self.particles@.len(),
                    n == old(self).particles@.len(),
                    n > 0,
                    (self.particles@, self.last_used as int, rng.state) == spawned(
                        old(self).particles@,
                        old(self).last_used as int,
                        old(rng).state,
                        *object,
                        offset,
                        k as nat,
                    ),
                decreases count - k,
            {
                let slot = self.first_unused_particle();
                let jitter = rng.next();
                let brightness = rng.next();
                self.respawn_particle(slot, object, offset, jitter, brightness);
                k += 1;
            }
        }
    }

    /// Lets every particle age by `dt` milliseconds.
    fn age_all(&mut self, dt: u32)
        requires
            old(self).wf(),
        ensures
            final(self).wf(),
            final(self).last_used == old(self).last_used,
            final(self).particles@ == decayed_all(old(self).particles@, dt),
    {
        let n = self.particles.len();
        let ghost born = self.particles@;
        let mut i: usize = 0;
        while i < n
            invariant
                i <= n,
                n == self.particles@.len(),
                n == born.len(),
                self.last_used == old(self).last_used,
                forall|j: int| 0 <= j < n ==> (#[trigger] born[j]).wf(),
                forall|j: int| 0 <= j < i ==> self.particles@[j] == decayed(born[j], dt),
                forall|j: int| i <= j < n ==> self.particles@[j] == born[j],
                forall|j: int| 0 <= j < n ==> (#[trigger] self.particles@[j]).wf(),
            decreases n - i,
        {
            let p = self.particles[i];
            assert(p == born[i as int]);
            let aged = age(p, dt);
            self.particles.set(i, aged);
            i += 1;
        }
        proof {
            assert(self.particles@ =~= decayed_all(born, dt));
        }
    }

    /// The particles to draw: the living ones, in pool order.
    pub fn draw(&self) -> (visible: Vec<Particle>)
        ensures
            visible@ == self.particles@.filter(|p: Particle| p.alive()),
    {
        let mut visible: Vec<Particle> = Vec::new();
        let mut i: usize = 0;
        proof {
            assert(self.particles@.take(0) =~= Seq::<Particle>::empty());
        }
        while i < self.particles.len()
            invariant
                i <= self.particles@.len(),
                visible@ == self.particles@.take(i as int).filter(|p: Particle| p.alive()),
            decreases self.particles@.len() - i,
        {
            let p = self.particles[i];
            proof {
                let pred = |p: Particle| p.alive();
                let upto = self.particles@.take(i as int);
                assert(self.particles@.take(i + 1) =~= upto + seq![p]);
                Seq::filter_distributes_over_add(upto, seq![p], pred);
                reveal(Seq::filter);
                assert(seq![p].filter(pred) =~= if p.alive() {
                    seq![p]
                } else {
                    Seq::<Particle>::empty()
                }) by {
                    assert(seq![p].drop_last() =~= Seq::<Particle>::empty());
                    assert(seq![p].last() == p);
                    assert(Seq::<Particle>::empty().filter(pred) =~= Seq::<Particle>::empty());
                }
            }
            if p.life > 0 {
                visible.push(p);
            }
            i += 1;
        }
        proof {
            assert(self.particles@.take(self.particles@.len() as int) =~= self.particles@);
        }
        visible
    }
}

/// Lets one particle age by `dt` milliseconds.
pub fn age(p: Particle, dt: u32) -> (aged: Particle)
    requires
        p.wf(),
    ensures
        aged == decayed(p, dt),
        aged.wf(),
{
    if p.life > dt as i64 {
        let left: i64 = p.life - dt as i64;
        let vx: i64 = p.velocity.x;
        let vy: i64 = p.velocity.y;
        proof {
            lemma_drift(vx as int, dt as int, p.life as int);
            lemma_drift(vy as int, dt as int, p.life as int);
        }
        Particle {
            position: Vec2 {
                x: p.position.x + vx * (dt as i64),
                y: p.position.y + vy * (dt as i64),
            },
            velocity: p.velocity,
            color: p.color,
            alpha: (1000 * left / PARTICLE_LIFE) as u16,
            life: left,
        }
    } else {
        Particle { position: p.position, velocity: p.velocity, color: p.color, alpha: 0, life: 0 }
    }
}

/// A tenth of a speed within the limit is within a tenth of the limit.
proof fn lemma_tenth(v: int)
    requires
        -(SPEED_MAX as int) <= v <= SPEED_MAX,
    ensures
        -(SPEED_MAX as int / 10) <= toward_zero(v, 10) <= SPEED_MAX as int / 10,
{
}

/// What a particle drifts in `dt` of its remaining `life` is covered by the
/// room that its shorter life leaves.
proof fn lemma_drift(v: int, dt: int, life: int)
    requires
        -100_000 <= v <= 100_000,
        0 <= dt < life <= 1000,
    ensures
        -100_000 * dt <= v * dt <= 100_000 * dt,
        100_000 * (life - dt) == 100_000 * life - 100_000 * dt,
        0 <= 1000 * (life - dt) / 1000 <= 1000,
{
    assert(-100_000 * dt <= v * dt <= 100_000 * dt) by (nonlinear_arith)
        requires
            -100_000 <= v <= 100_000,
            0 <= dt,
    ;
}

/// No more particles are alive than the pool holds.
pub proof fn lemma_live_count_bounded(pool: Seq<Particle>)
    ensures
        live_count(pool) <= pool.len(),
    decreases pool.len(),
{
    if pool.len() > 0 {
        lemma_live_count_bounded(pool.drop_last());
    }
}

/// A pool in which as many particles are alive as it holds has no dead one.
proof fn lemma_full_pool(pool: Seq<Particle>)
    requires
        live_count(pool) == pool.len(),
    ensures
        forall|i: int| 0 <= i < pool.len() ==> (#[trigger] pool[i]).alive(),
    decreases pool.len(),
{
    if pool.len() > 0 {
        lemma_live_count_bounded(pool.drop_last());
        lemma_full_pool(pool.drop_last());
        assert forall|i: int| 0 <= i < pool.len() implies (#[trigger] pool[i]).alive() by {
            if i < pool.len() - 1 {
                assert(pool.drop_last()[i] == pool[i]);
            }
        }
    }
}

/// Replacing one particle changes the count by what the two differ in.
proof fn lemma_live_count_update(pool: Seq<Particle>, i: int, p: Particle)
    requires
        0 <= i < pool.len(),
    ensures
        live_count(pool.update(i, p)) + (if pool[i].alive() {
            1nat
        } else {
            0nat
        }) == live_count(pool) + (if p.alive() {
            1nat
        } else {
            0nat
        }),
    decreases pool.len(),
{
    if i < pool.len() - 1 {
        assert(pool.update(i, p).drop_last() =~= pool.drop_last().update(i, p));
        assert(pool.drop_last()[i] == pool[i]);
        lemma_live_count_update(pool.drop_last(), i, p);
    } else {
        assert(pool.update(i, p).drop_last() =~= pool.drop_last());
    }
}

/// Pools whose particles agree in being alive or dead have equal counts.
proof fn lemma_live_count_agrees(a: Seq<Particle>, b: Seq<Particle>)
    requires
        a.len() == b.len(),
        forall|i: int| 0 <= i < a.len() ==> (#[trigger] a[i]).alive() == b[i].alive(),
    ensures
        live_count(a) == live_count(b),
    decreases a.len(),
{
    if a.len() > 0 {
        assert forall|i: int| 0 <= i < a.drop_last().len() implies (#[trigger] a.drop_last()[i]).alive()
            == b.drop_last()[i].alive() by {
            assert(a.drop_last()[i] == a[i]);
            assert(b.drop_last()[i] == b[i]);
        }
        lemma_live_count_agrees(a.drop_last(), b.drop_last());
    }
}

/// `first_dead_in` finds a dead particle in its range, or there is none.
proof fn lemma_first_dead(pool: Seq<Particle>, low: int, high: int)
    requires
        0 <= low,
        high <= pool.len(),
    ensures
        match first_dead_in(pool, low, high) {
            Some(slot) => low <= slot < high && !pool[slot].alive(),
            None => forall|i: int| low <= i < high ==> (#[trigger] pool[i]).alive(),
        },
    decreases high - low,
{
    if low < high && pool[low].alive() {
        lemma_first_dead(pool, low + 1, high);
    }
}

/// The unused slot lies in the pool; it holds a dead particle if the pool
/// has one.
pub proof fn lemma_unused_slot(pool: Seq<Particle>, cursor: int)
    requires
        pool.len() > 0,
        0 <= cursor < pool.len(),
    ensures
        0 <= unused_slot(pool, cursor) < pool.len(),
        live_count(pool) < pool.len() ==> !pool[unused_slot(pool, cursor)].alive(),
{
    lemma_first_dead(pool, cursor, pool.len() as int);
    lemma_first_dead(pool, 0, cursor);
    if first_dead_in(pool, cursor, pool.len() as int) is None && first_dead_in(pool, 0, cursor)
        is None {
        if live_count(pool) < pool.len() {
            lemma_all_alive_counts(pool);
        }
    }
}

/// A pool without a dead particle has as many alive as it holds.
proof fn lemma_all_alive_counts(pool: Seq<Particle>)
    requires
        forall|i: int| 0 <= i < pool.len() ==> (#[trigger] pool[i]).alive(),
    ensures
        live_count(pool) == pool.len(),
    decreases pool.len(),
{
    if pool.len() > 0 {
        assert forall|i: int| 0 <= i < pool.drop_last().len() implies (#[trigger] pool.drop_last()[i]).alive() by {
            assert(pool.drop_last()[i] == pool[i]);
        }
        lemma_all_alive_counts(pool.drop_last());
    }
}

/// The smaller of two counts.
pub open spec fn least(a: int, b: int) -> int {
    if a <= b {
        a
    } else {
        b
    }
}

/// Each birth fills a dead slot as long as there is one: after `count`
/// births the pool has `count` more particles alive, or is full. The pool
/// keeps its size, the cursor stays inside it, and a pool whose living
/// particles were all newborn still has only such.
pub proof fn lemma_spawned(
    pool: Seq<Particle>,
    cursor: int,
    rng: u64,
    object: GameObject,
    offset: Vec2,
    count: nat,
)
    requires
        pool.len() > 0,
        0 <= cursor < pool.len(),
    ensures
        spawned(pool, cursor, rng, object, offset, count).0.len() == pool.len(),
        0 <= spawned(pool, cursor, rng, object, offset, count).1 < pool.len(),
        live_count(spawned(pool, cursor, rng, object, offset, count).0) == least(
            live_count(pool) as int + count as int,
            pool.len() as int,
        ),
        (forall|i: int| 0 <= i < pool.len() && (#[trigger] pool[i]).alive() ==> pool[i].life
            == PARTICLE_LIFE) ==> (forall|i: int|
            0 <= i < pool.len() && (#[trigger] spawned(
                pool,
                cursor,
                rng,
                object,
                offset,
                count,
            ).0[i]).alive() ==> spawned(pool, cursor, rng, object, offset, count).0[i].life
                == PARTICLE_LIFE),
    decreases count,
{
    lemma_live_count_bounded(pool);
    if count > 0 {
        let (before, at, state) = spawned(pool, cursor, rng, object, offset, (count - 1) as nat);
        lemma_spawned(pool, cursor, rng, object, offset, (count - 1) as nat);
        lemma_unused_slot(before, at);
        let slot = unused_slot(before, at);
        let born = respawned(
            object,
            offset,
            output_of(next_state(state)),
            output_of(next_state(next_state(state))),
        );
        lemma_live_count_update(before, slot, born);
        lemma_live_count_bounded(before);
        if live_count(before) == before.len() {
            lemma_full_pool(before);
        }
    }
}

/// On a pool without a living particle, a frame that asks for `count`
/// births and lasts less than a particle's life leaves as many particles
/// alive as were asked for, or as the pool holds if that is fewer.
pub proof fn lemma_update_on_empty_pool(
    pool: Seq<Particle>,
    cursor: int,
    rng: u64,
    object: GameObject,
    offset: Vec2,
    count: nat,
    dt: u32,
)
    requires
        0 <= cursor < pool.len() || (cursor == 0 && pool.len() == 0),
        forall|i: int| 0 <= i < pool.len() ==> !(#[trigger] pool[i]).alive(),
        dt < PARTICLE_LIFE,
    ensures
        live_count(decayed_all(spawned(pool, cursor, rng, object, offset, count).0, dt)) == least(
            count as int,
            pool.len() as int,
        ),
        decayed_all(spawned(pool, cursor, rng, object, offset, count).0, dt).len() == pool.len(),
{
    let born = spawned(pool, cursor, rng, object, offset, count).0;
    if pool.len() > 0 {
        lemma_spawned(pool, cursor, rng, object, offset, count);
        lemma_none_alive(pool);
        assert forall|i: int| 0 <= i < born.len() implies (#[trigger] born[i]).alive()
            == decayed_all(born, dt)[i].alive() by {}
        lemma_live_count_agrees(born, decayed_all(born, dt));
    } else {
        assert(born =~= pool);
        assert(decayed_all(born, dt) =~= Seq::<Particle>::empty());
    }
}

/// A pool without a living particle counts none.
proof fn lemma_none_alive(pool: Seq<Particle>)
    requires
        forall|i: int| 0 <= i < pool.len() ==> !(#[trigger] pool[i]).alive(),
    ensures
        live_count(pool) == 0,
    decreases pool.len(),
{
    if pool.len() > 0 {
        assert forall|i: int| 0 <= i < pool.drop_last().len() implies !(#[trigger] pool.drop_last()[i]).alive() by {
            assert(pool.drop_last()[i] == pool[i]);
        }
        lemma_none_alive(pool.drop_last());
    }
}

} // verus!
