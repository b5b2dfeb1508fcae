//! Short-lived markers on the map: asked for by the systems during a turn,
//! made into entities at its end, and removed when their time is up.

use vstd::prelude::*;
use crate::components::{Color, ParticleLifetime, Position, Renderable};
use crate::world::{Entity, World, WorldView};

verus! {

/// One particle that a system has asked for.
#[derive(Clone, Copy, PartialEq, Eq, Debug, Structural)]
pub struct ParticleRequest {
    pub x: i32,
    pub y: i32,
    pub fg: Color,
    pub bg: Color,
    pub glyph: u16,
    /// Microseconds for which the particle is to be shown.
    pub lifetime: i64,
}

/// The particles asked for since the last spawn, in the order of asking.
#[derive(Clone, Debug)]
pub struct ParticleBuilder {
    pub requests: Vec<ParticleRequest>,
}

impl View for ParticleBuilder {
    type V = Seq<ParticleRequest>;

    open spec fn view(&self) -> Seq<ParticleRequest> {
        self.requests@
    }
}

impl ParticleBuilder {
    /// The queue without any request.
    pub fn new() -> (b: ParticleBuilder)
        ensures
            b@ == Seq::<ParticleRequest>::empty(),
    {
        ParticleBuilder { requests: Vec::new() }
    }

    /// Asks for one particle at `(x, y)`.
    pub fn request(&mut self, x: i32, y: i32, fg: Color, bg: Color, glyph: u16, lifetime: i64)
        ensures
            final(self)@ == old(self)@.push(ParticleRequest { x, y, fg, bg, glyph, lifetime }),
    {
        self.requests.push(ParticleRequest { x, y, fg, bg, glyph, lifetime });
    }
}

/// The world after particle `r` was made: a new entity with a position, an
/// appearance in layer 0 and a lifetime.
pub open spec fn spawn_step(w: WorldView, r: ParticleRequest) -> WorldView {
    let p = w.capacity();
    WorldView {
        alive: w.alive.push(true),
        positions: w.positions.insert(p, Position { x: r.x, y: r.y }),
        renderables: w.renderables.insert(
            p,
            Renderable { layer: 0, glyph: r.glyph, fg: r.fg, bg: r.bg },
        ),
        particle_lifetimes: w.particle_lifetimes.insert(p, ParticleLifetime { lifetime_us: r.lifetime }),
        ..w
    }
}

/// The world after the first `n` of the particles in `requests` were made.
pub open spec fn spawn_upto(w: WorldView, requests: Seq<ParticleRequest>, n: int) -> WorldView
    decreases n,
{
    if n <= 0 {
        w
    } else {
        spawn_step(spawn_upto(w, requests, n - 1), requests[n - 1])
    }
}

/// The world after the particle spawn system ran: every particle asked for
/// is made, in the order of asking, and the queue is empty. After a fault
/// nothing changes.
pub open spec fn spawn_result(w: WorldView) -> WorldView {
    if w.fault.is_some() {
        w
    } else {
        WorldView {
            particles: Seq::empty(),
            ..spawn_upto(w, w.particles, w.particles.len() as int)
        }
    }
}

/// Makes the particles that were asked for.
pub struct ParticleSpawnSystem {}

impl ParticleSpawnSystem {
    /// Runs the system. See [`spawn_result`].
    pub fn run(&mut self, world: &mut World)
        ensures
            final(world)@ == spawn_result(old(world)@),
            final(world)@.map == old(world)@.map,
    {
        if world.fault.is_some() {
            return ;
        }
        let n: usize = world.particles.requests.len();
        let mut k: usize = 0;
        while k < n
            invariant
                k <= n,
                n == old(world)@.particles.len(),
                world@.particles == old(world)@.particles,
                world@.map == old(world)@.map,
                world@ == spawn_upto(old(world)@, old(world)@.particles, k as int),
            decreases n - k,
        {
            let r = world.particles.requests[k];
            let p = world.create_entity();
            world.positions.insert(p, Position { x: r.x, y: r.y });
            world.renderables.insert(p, Renderable { layer: 0, glyph: r.glyph, fg: r.fg, bg: r.bg });
            world.particle_lifetimes.insert(p, ParticleLifetime { lifetime_us: r.lifetime });
            k = k + 1;
        }
        world.particles.requests.clear();
    }
}

/// `v` brought into the range of `i64`.
pub open spec fn sat64(v: int) -> int {
    if v < i64::MIN {
        i64::MIN as int
    } else if v > i64::MAX {
        i64::MAX as int
    } else {
        v
    }
}

/// The world after the particle with index `i` aged by `elapsed`
/// microseconds: its lifetime is that much shorter, and with a negative
/// lifetime it is deleted.
pub open spec fn cull_step(w: WorldView, i: int, elapsed: i64) -> WorldView {
    if !w.is_alive(i) || !w.particle_lifetimes.contains_key(i) {
        w
    } else {
        let left = sat64(w.particle_lifetimes[i].lifetime_us - elapsed);
        if left < 0 {
            w.delete(i)
        } else {
            WorldView {
                particle_lifetimes: w.particle_lifetimes.insert(
                    i,
                    ParticleLifetime { lifetime_us: left as i64 },
                ),
                ..w
            }
        }
    }
}

/// The world after the particles with index below `n` aged, in the order
/// of their indices.
pub open spec fn cull_upto(w: WorldView, n: int, elapsed: i64) -> WorldView
    decreases n,
{
    if n <= 0 {
        w
    } else {
        cull_step(cull_upto(w, n - 1, elapsed), n - 1, elapsed)
    }
}

/// Aging keeps the number of entity indices.
pub proof fn lemma_cull_capacity(w: WorldView, n: int, elapsed: i64)
    ensures
        cull_upto(w, n, elapsed).capacity() == w.capacity(),
    decreases n,
{
    if n > 0 {
        lemma_cull_capacity(w, n - 1, elapsed);
    }
}

/// Ages every particle by the `elapsed` microseconds of the last frame and
/// deletes those whose time is up.
pub fn cull_dead_particles(world: &mut World, elapsed: i64)
    ensures
        final(world)@ == cull_upto(old(world)@, old(world)@.capacity(), elapsed),
        final(world)@.map == old(world)@.map,
{
    let n: usize = world.capacity();
    let mut i: usize = 0;
    while i < n
        invariant
            i <= n,
            n == old(world)@.capacity(),
            n == world@.capacity(),
            world@.map == old(world)@.map,
            world@ == cull_upto(old(world)@, i as int, elapsed),
        decreases n - i,
    {
        let ghost prev = world@;
        let e = Entity { index: i };
        let mut dead = false;
        if world.is_alive(e) {
            if let Some(particle) = world.particle_lifetimes.get_mut(e) {
                let wide: i128 = particle.lifetime_us as i128 - elapsed as i128;
                let left: i64 = if wide < -9223372036854775808i128 {
                    i64::MIN
                } else if wide > 9223372036854775807i128 {
                    i64::MAX
                } else {
                    wide as i64
                };
                particle.lifetime_us = left;
                dead = left < 0;
            }
        }
        if dead {
            proof {
                assert(world@.particle_lifetimes.remove(i as int) =~= prev.particle_lifetimes.remove(
                    i as int,
                ));
                assert(world@.delete(i as int) =~= prev.delete(i as int));
            }
            world.delete_entity(e);
        }
        assert(world@ =~= cull_step(prev, i as int, elapsed));
        i = i + 1;
    }
}

} // verus!
