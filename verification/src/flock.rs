//! The flock engine: the population, the species registry, the seeded
//! generator and the per-frame simulation step.
//!
//! The engine owns every agent. A maximum population size is enforced on
//! every path that grows or re-bounds the flock: any excess agent is
//! evicted by a uniformly random draw. New agents are spawned for a species
//! chosen by spawn-weight-proportional random selection over the registry,
//! which keeps insertion order, so a run is reproducible from the seed and
//! the sequence of calls.

use vstd::prelude::*;

use crate::bird::Bird;
use crate::bird::BirdV;
use crate::bird::bird_step;
use crate::bird::pairs_view;
use crate::bird::tri_vertices;
use crate::bird::wrap_position;
use crate::bird_config::BirdConfig;
use crate::bird_config::BirdConfigV;
use crate::bird_config::cfg_wf;
use crate::fixed::FX_ONE;
use crate::fixed::fx_sub;
use crate::fixed::sat_sub;
use crate::rng::rand32_next;
use crate::rng::rand32_next_range;
use crate::rng::rand32_next_unit;
use crate::rng::rand32_seeded;
use crate::rng::rng_range;
use crate::rng::rng_seed;
use crate::rng::rng_u32;
use crate::rng::rng_unit;
use crate::spatial::KD_COORD_MAX;
use crate::spatial::build_points;
use crate::spatial::index_points;
use crate::spatial::kd_arrange;
use crate::spatial::kd_build;
use crate::spatial::kd_coords_ok;
use crate::spatial::kd_points;
use crate::spatial::kd_range_order;
use crate::spatial::neighbor_pairs;
use crate::vec2::Vec2;

verus! {

use vstd::string::StringExecFns;

/// Positions the engine accepts and maintains: within 2^29 in magnitude,
/// the range the spatial index supports.
pub const MAX_POSITION: i64 = KD_COORD_MAX;

/// Largest accepted viewport extent (2^28, about 4096 world units): keeps
/// wrapped positions within [`MAX_POSITION`].
pub const MAX_VIEWPORT: i64 = 0x1000_0000;

/// The one failure the engine reports: a spawn named a species id with no
/// registered config. Species configuration is caller-owned, so a missing
/// id is a caller bug and must fail loudly rather than silently substitute.
#[derive(Clone, Debug, PartialEq, Eq)]
pub enum FlockError {
    SpeciesNotFound { id: String },
}

/// One flock of agents.
pub struct Flock {
    birds: Vec<Bird>,
    configs: Vec<(String, BirdConfig)>,
    rng: (u64, u64),
    max_flock_size: usize,
}

/// The mathematical value of a [`Flock`]: the agents, the registry in its
/// insertion order, the generator state and the population bound.
pub struct FlockV {
    pub birds: Seq<BirdV>,
    pub configs: Seq<(Seq<char>, BirdConfigV)>,
    pub rng: (u64, u64),
    pub max_flock_size: int,
}

/// The agents' mathematical values.
pub open spec fn birds_view(s: Seq<Bird>) -> Seq<BirdV> {
    s.map_values(|b: Bird| b@)
}

/// The registry's mathematical value.
pub open spec fn registry_view(s: Seq<(String, BirdConfig)>) -> Seq<(Seq<char>, BirdConfigV)> {
    s.map_values(|p: (String, BirdConfig)| (p.0@, p.1@))
}

impl View for Flock {
    type V = FlockV;

    closed spec fn view(&self) -> FlockV {
        FlockV {
            birds: birds_view(self.birds@),
            configs: registry_view(self.configs@),
            rng: self.rng,
            max_flock_size: self.max_flock_size as int,
        }
    }
}

/// A position the engine maintains for every agent.
pub open spec fn pos_ok(p: (int, int)) -> bool {
    &&& -MAX_POSITION <= p.0 <= MAX_POSITION
    &&& -MAX_POSITION <= p.1 <= MAX_POSITION
}

/// The engine's invariant: the population respects its bound, every
/// position is in range, every registered config is acceptable, registry
/// keys are unique, the counts stay within the 32-bit range the random
/// draws index with, and the generator's increment is odd — the shape
/// seeding produces and every draw preserves, which keeps the ranged
/// draw's rejection sampling terminating.
pub open spec fn flock_wf(f: FlockV) -> bool {
    &&& f.birds.len() <= f.max_flock_size
    &&& f.max_flock_size < 0xffff_ffff
    &&& f.configs.len() <= 0xffff_ffff
    &&& f.rng.1 % 2 == 1
    &&& forall|k: int| 0 <= k < f.birds.len() ==> pos_ok(#[trigger] f.birds[k].position)
    &&& forall|k: int| 0 <= k < f.configs.len() ==> cfg_wf((#[trigger] f.configs[k]).1)
    &&& forall|k: int, l: int|
        0 <= k < l < f.configs.len() ==> (#[trigger] f.configs[k]).0 != (#[trigger] f.configs[l]).0
}

/// The first registry index holding `id`, or `-1`.
pub open spec fn find_key_idx(cfgs: Seq<(Seq<char>, BirdConfigV)>, id: Seq<char>) -> int
    decreases cfgs.len(),
{
    if cfgs.len() == 0 {
        -1
    } else if cfgs[0].0 == id {
        0
    } else {
        let r = find_key_idx(cfgs.drop_first(), id);
        if r < 0 {
            -1
        } else {
            r + 1
        }
    }
}

/// The config registered under `id`, if any.
pub open spec fn find_config(cfgs: Seq<(Seq<char>, BirdConfigV)>, id: Seq<char>) -> Option<
    BirdConfigV,
> {
    let k = find_key_idx(cfgs, id);
    if k < 0 {
        None
    } else {
        Some(cfgs[k].1)
    }
}

/// Whether some config is registered under `id`.
pub open spec fn has_config(cfgs: Seq<(Seq<char>, BirdConfigV)>, id: Seq<char>) -> bool {
    find_key_idx(cfgs, id) >= 0
}

/// `find_key_idx` finds exactly the first index whose key is `id`.
pub proof fn lemma_find_key_idx(cfgs: Seq<(Seq<char>, BirdConfigV)>, id: Seq<char>)
    ensures
        (exists|k: int| 0 <= k < cfgs.len() && (#[trigger] cfgs[k]).0 == id) <==> find_key_idx(
            cfgs,
            id,
        ) >= 0,
        find_key_idx(cfgs, id) >= 0 ==> {
            let j = find_key_idx(cfgs, id);
            &&& j < cfgs.len()
            &&& cfgs[j].0 == id
            &&& forall|k: int| 0 <= k < j ==> (#[trigger] cfgs[k]).0 != id
        },
    decreases cfgs.len(),
{
    if cfgs.len() == 0 {
    } else if cfgs[0].0 == id {
    } else {
        let rest = cfgs.drop_first();
        lemma_find_key_idx(rest, id);
        if exists|k: int| 0 <= k < cfgs.len() && (#[trigger] cfgs[k]).0 == id {
            let k = choose|k: int| 0 <= k < cfgs.len() && (#[trigger] cfgs[k]).0 == id;
            assert(k > 0);
            assert(rest[k - 1].0 == id);
            assert(find_key_idx(rest, id) >= 0);
        }
        if find_key_idx(rest, id) >= 0 {
            let r = find_key_idx(rest, id);
            assert(cfgs[r + 1].0 == rest[r].0);
            assert(rest[r].0 == id);
            assert forall|k: int| 0 <= k < r + 1 implies (#[trigger] cfgs[k]).0 != id by {
                if k > 0 {
                    assert(rest[k - 1].0 != id);
                }
            }
        }
    }
}

/// Find the registry slot holding `id`, scanning in insertion order.
pub(crate) fn config_index(configs: &Vec<(String, BirdConfig)>, id: &String) -> (r: Option<usize>)
    ensures
        match r {
            Some(j) => j == find_key_idx(registry_view(configs@), id@),
            None => find_key_idx(registry_view(configs@), id@) < 0,
        },
{
    proof {
        lemma_find_key_idx(registry_view(configs@), id@);
    }
    let mut j: usize = 0;
    while j < configs.len()
        invariant
            j <= configs.len(),
            forall|k: int| 0 <= k < j ==> (#[trigger] registry_view(configs@)[k]).0 != id@,
        decreases configs.len() - j,
    {
        if configs[j].0 == *id {
            proof {
                let rv = registry_view(configs@);
                lemma_find_key_idx(rv, id@);
                assert(exists|k: int| 0 <= k < rv.len() && (#[trigger] rv[k]).0 == id@) by {
                    assert(0 <= j < rv.len() && rv[j as int].0 == id@);
                }
                let f = find_key_idx(rv, id@);
                assert(f >= 0);
                assert(rv[f].0 == id@);
                if f > j as int {
                    assert(rv[j as int].0 != id@);
                }
                assert(f == j as int);
            }
            return Some(j);
        }
        j = j + 1;
    }
    None
}

impl Flock {
    /// The engine's invariant; public operations keep it.
    pub open spec fn wf(&self) -> bool {
        flock_wf(self@)
    }

    /// A new, empty flock with the given population bound, its generator
    /// seeded once from `seed`.
    pub fn new(max_flock_size: usize, seed: u64) -> (r: Flock)
        requires
            max_flock_size < 0xffff_ffff,
        ensures
            r.wf(),
            r@ == (FlockV {
                birds: Seq::<BirdV>::empty(),
                configs: Seq::<(Seq<char>, BirdConfigV)>::empty(),
                rng: rand32_seeded(seed),
                max_flock_size: max_flock_size as int,
            }),
    {
        let r = Flock {
            max_flock_size,
            configs: Vec::new(),
            birds: Vec::new(),
            rng: rng_seed(seed),
        };
        proof {
            assert(birds_view(r.birds@) =~= Seq::<BirdV>::empty());
            assert(registry_view(r.configs@) =~= Seq::<(Seq<char>, BirdConfigV)>::empty());
        }
        r
    }

    /// The population bound.
    pub fn max_flock_size(&self) -> (r: usize)
        ensures
            r == self@.max_flock_size,
    {
        self.max_flock_size
    }

    /// How many agents are alive.
    pub fn current_flock_size(&self) -> (r: usize)
        ensures
            r == self@.birds.len(),
    {
        self.birds.len()
    }

    /// The species registry, in its insertion order.
    pub fn bird_configs(&self) -> (r: &Vec<(String, BirdConfig)>)
        ensures
            registry_view(r@) == self@.configs,
    {
        &self.configs
    }

    /// Register (or wholesale replace) the config for a species.
    pub fn insert_bird_config(&mut self, config_id: String, bird_config: BirdConfig)
        requires
            old(self).wf(),
            old(self)@.configs.len() < 0xffff_ffff,
            cfg_wf(bird_config@),
        ensures
            final(self).wf(),
            final(self)@ == (FlockV {
                configs: insert_config(old(self)@.configs, config_id@, bird_config@),
                ..old(self)@
            }),
    {
        proof {
            lemma_find_key_idx(registry_view(self.configs@), config_id@);
        }
        match config_index(&self.configs, &config_id) {
            Some(j) => {
                self.configs.remove(j);
                self.configs.insert(j, (config_id, bird_config));
                proof {
                    assert(registry_view(self.configs@) =~= insert_config(
                        old(self)@.configs,
                        old(self)@.configs[j as int].0,
                        bird_config@,
                    ));
                }
            },
            None => {
                self.configs.push((config_id, bird_config));
                proof {
                    assert(registry_view(self.configs@) =~= old(self)@.configs.push(
                        (self.configs@.last().0@, bird_config@),
                    ));
                }
            },
        }
    }

    /// Drop the config for a species; agents of that species are dropped
    /// on the next step. Removing an unknown id does nothing.
    pub fn remove_bird_config(&mut self, config_id: String)
        requires
            old(self).wf(),
        ensures
            final(self).wf(),
            final(self)@ == (FlockV {
                configs: remove_config(old(self)@.configs, config_id@),
                ..old(self)@
            }),
    {
        proof {
            lemma_find_key_idx(registry_view(self.configs@), config_id@);
        }
        match config_index(&self.configs, &config_id) {
            Some(j) => {
                self.configs.remove(j);
                proof {
                    assert(registry_view(self.configs@) =~= old(self)@.configs.remove(j as int));
                }
            },
            None => {},
        }
    }
}

/// The population and generator after appending `nb` and restoring the
/// population bound: if the bound is now exceeded, one agent — not
/// necessarily the new one — is evicted by a uniformly random draw.
pub open spec fn push_bounded(f: FlockV, nb: BirdV) -> (Seq<BirdV>, (u64, u64)) {
    let grown = f.birds.push(nb);
    if grown.len() > f.max_flock_size {
        let d = rand32_next_range(f.rng, 0, grown.len() as u32);
        let idx = if d.0 < grown.len() {
            d.0 as int
        } else {
            0
        };
        (grown.remove(idx), d.1)
    } else {
        (grown, f.rng)
    }
}

/// The flock after spawning an agent of species `id` at `(x, y)`: the
/// agent gets a small random initial velocity and acceleration (four unit
/// draws, x components negated), and the population bound is restored by
/// random eviction if it was hit.
pub open spec fn add_bird_spec(f: FlockV, id: Seq<char>, x: int, y: int) -> FlockV {
    let nb = spawned_bird(f.rng, id, x, y);
    let pushed = push_bounded(FlockV { rng: spawn_rng_after(f.rng), ..f }, nb);
    FlockV { birds: pushed.0, rng: pushed.1, ..f }
}

/// The agent one spawn creates: the given position and id, and a small
/// random initial velocity and acceleration from four unit draws (the x
/// components negated).
pub open spec fn spawned_bird(rng: (u64, u64), id: Seq<char>, x: int, y: int) -> BirdV {
    let d1 = rand32_next_unit(rng);
    let d2 = rand32_next_unit(d1.1);
    let d3 = rand32_next_unit(d2.1);
    let d4 = rand32_next_unit(d3.1);
    BirdV {
        position: (x, y),
        velocity: (sat_sub(0, d1.0 as int), d2.0 as int),
        acceleration: (sat_sub(0, d3.0 as int), d4.0 as int),
        config_id: id,
    }
}

/// The generator state after the four spawn draws.
pub open spec fn spawn_rng_after(rng: (u64, u64)) -> (u64, u64) {
    rand32_next_unit(rand32_next_unit(rand32_next_unit(rand32_next_unit(rng).1).1).1).1
}

/// "Small random initial velocity": every velocity and acceleration
/// component of a spawned agent lies strictly within one world unit.
pub open spec fn small_initial_motion(b: BirdV) -> bool {
    &&& -(FX_ONE as int) < b.velocity.0 <= 0
    &&& 0 <= b.velocity.1 < FX_ONE as int
    &&& -(FX_ONE as int) < b.acceleration.0 <= 0
    &&& 0 <= b.acceleration.1 < FX_ONE as int
}

/// The population and generator after evicting `count` uniformly random
/// agents, one at a time.
pub open spec fn evict_down(birds: Seq<BirdV>, rng: (u64, u64), count: int) -> (
    Seq<BirdV>,
    (u64, u64),
)
    decreases count,
{
    if count <= 0 || birds.len() == 0 {
        (birds, rng)
    } else {
        let d = rand32_next_range(rng, 0, birds.len() as u32);
        let idx = if d.0 < birds.len() {
            d.0 as int
        } else {
            0
        };
        evict_down(birds.remove(idx), d.1, count - 1)
    }
}

/// The flock after re-bounding the population to `n`: any excess agents
/// are evicted by uniformly random draws.
pub open spec fn set_max_spec(f: FlockV, n: int) -> FlockV {
    if n < f.birds.len() {
        let e = evict_down(f.birds, f.rng, f.birds.len() - n);
        FlockV { birds: e.0, rng: e.1, max_flock_size: n, ..f }
    } else {
        FlockV { max_flock_size: n, ..f }
    }
}

/// The summed spawn weight of the first `j` registry entries.
pub open spec fn total_weight(cfgs: Seq<(Seq<char>, BirdConfigV)>, j: int) -> int
    decreases j,
{
    if j <= 0 {
        0
    } else {
        total_weight(cfgs, j - 1) + cfgs[j - 1].1.probability
    }
}

/// The first registry index, from `j` on, whose spawn weight exceeds the
/// remaining draw `r`; index 0 is the documented fallback if none does.
pub open spec fn weighted_from(cfgs: Seq<(Seq<char>, BirdConfigV)>, r: int, j: int) -> int
    decreases cfgs.len() - j,
{
    if j < 0 || j >= cfgs.len() {
        0
    } else if cfgs[j].1.probability > r {
        j
    } else {
        weighted_from(cfgs, r - cfgs[j].1.probability, j + 1)
    }
}

/// A draw in `[0, total)` for totals beyond the 32-bit range: two raw
/// draws combined and reduced modulo the total.
pub open spec fn wide_draw(state: (u64, u64), total: int) -> (int, (u64, u64)) {
    let a = rand32_next(state);
    let b = rand32_next(a.1);
    (((a.0 as int) * 0x1_0000_0000 + (b.0 as int)) % total, b.1)
}

/// The weighted species selection: the id drawn, and the generator after
/// it. An empty registry yields nothing; a non-positive total falls back
/// to the first registered id without drawing.
pub open spec fn choose_spec(f: FlockV) -> (Option<Seq<char>>, (u64, u64)) {
    if f.configs.len() == 0 {
        (None, f.rng)
    } else {
        let total = total_weight(f.configs, f.configs.len() as int);
        if total <= 0 {
            (Some(f.configs[0].0), f.rng)
        } else {
            let d = if total <= 0xffff_ffff {
                let n = rand32_next_range(f.rng, 0, total as u32);
                (n.0 as int, n.1)
            } else {
                wide_draw(f.rng, total)
            };
            (Some(f.configs[weighted_from(f.configs, d.0, 0)].0), d.1)
        }
    }
}

impl Flock {
    /// Spawn an agent of species `config_id` at `(pos_x, pos_y)`, with a
    /// small random initial velocity and acceleration. Fails — and leaves
    /// the flock untouched, generator included — when no config is
    /// registered under that id. On success the population bound is
    /// restored by random eviction if it was hit.
    pub fn add_bird(&mut self, config_id: String, pos_x: i64, pos_y: i64) -> (r: Result<
        (),
        FlockError,
    >)
        requires
            old(self).wf(),
            -MAX_POSITION <= pos_x <= MAX_POSITION,
            -MAX_POSITION <= pos_y <= MAX_POSITION,
        ensures
            final(self).wf(),
            r is Ok <==> has_config(old(self)@.configs, config_id@),
            r is Ok ==> final(self)@ == add_bird_spec(
                old(self)@,
                config_id@,
                pos_x as int,
                pos_y as int,
            ),
            r is Ok ==> small_initial_motion(
                spawned_bird(old(self)@.rng, config_id@, pos_x as int, pos_y as int),
            ),
            r matches Err(e) ==> final(self)@ == old(self)@ && (e matches
            FlockError::SpeciesNotFound { id } && id@ == config_id@),
    {
        proof {
            lemma_find_key_idx(registry_view(self.configs@), config_id@);
        }
        if config_index(&self.configs, &config_id).is_none() {
            return Err(FlockError::SpeciesNotFound { id: config_id });
        }
        let d1 = rng_unit(self.rng);
        let d2 = rng_unit(d1.1);
        let d3 = rng_unit(d2.1);
        let d4 = rng_unit(d3.1);
        self.rng = d4.1;
        let nb = Bird {
            position: Vec2 { x: pos_x, y: pos_y },
            velocity: Vec2 { x: fx_sub(0, d1.0), y: d2.0 },
            acceleration: Vec2 { x: fx_sub(0, d3.0), y: d4.0 },
            config_id,
        };
        let ghost nbv = nb@;
        self.birds.push(nb);
        proof {
            assert(birds_view(self.birds@) =~= birds_view(old(self).birds@).push(nbv));
        }
        if self.birds.len() > self.max_flock_size {
            let hi: u32 = self.birds.len() as u32;
            let d5 = rng_range(self.rng, 0, hi);
            let ghost before = birds_view(self.birds@);
            self.birds.remove(d5.0 as usize);
            self.rng = d5.1;
            proof {
                assert(birds_view(self.birds@) =~= before.remove(d5.0 as int));
            }
        }
        Ok(())
    }

    /// Spawn an agent of species `config_id` at a position drawn uniformly
    /// over the centered `width` by `height` rectangle.
    pub fn add_bird_at_random_position(
        &mut self,
        config_id: String,
        width: i64,
        height: i64,
    ) -> (r: Result<(), FlockError>)
        requires
            old(self).wf(),
            -MAX_VIEWPORT <= width <= MAX_VIEWPORT,
            -MAX_VIEWPORT <= height <= MAX_VIEWPORT,
        ensures
            final(self).wf(),
            r is Ok <==> has_config(old(self)@.configs, config_id@),
            r is Ok ==> final(self)@ == add_bird_at_random_spec(
                old(self)@,
                config_id@,
                width as int,
                height as int,
            ),
            r matches Err(e) ==> final(self)@ == old(self)@ && (e matches
            FlockError::SpeciesNotFound { id } && id@ == config_id@),
    {
        proof {
            lemma_find_key_idx(registry_view(self.configs@), config_id@);
        }
        if config_index(&self.configs, &config_id).is_none() {
            return Err(FlockError::SpeciesNotFound { id: config_id });
        }
        let d1 = rng_unit(self.rng);
        let d2 = rng_unit(d1.1);
        self.rng = d2.1;
        let x: i64 = fx_sub(crate::fixed::fx_mul(d1.0, width), half_of(width));
        let y: i64 = fx_sub(crate::fixed::fx_mul(d2.0, height), half_of(height));
        proof {
            lemma_spawn_coord_in_range(d1.0 as int, width as int);
            lemma_spawn_coord_in_range(d2.0 as int, height as int);
        }
        self.add_bird(config_id, x, y)
    }

    /// Re-bound the population: shrinking below the current size evicts
    /// uniformly random agents until the new bound holds.
    pub fn set_max_flock_size(&mut self, new_max_flock_size: usize)
        requires
            old(self).wf(),
            new_max_flock_size < 0xffff_ffff,
        ensures
            final(self).wf(),
            final(self)@ == set_max_spec(old(self)@, new_max_flock_size as int),
    {
        if new_max_flock_size < self.birds.len() {
            let count: usize = self.birds.len() - new_max_flock_size;
            let ghost orig_birds = birds_view(old(self).birds@);
            let ghost orig_rng = old(self).rng;
            let mut i: usize = 0;
            while i < count
                invariant
                    i <= count,
                    self.birds@.len() == old(self).birds@.len() - i,
                    count <= old(self).birds@.len(),
                    old(self).birds@.len() < 0xffff_ffff,
                    self.rng.1 % 2 == 1,
                    count - i <= self.birds@.len(),
                    evict_down(birds_view(self.birds@), self.rng, count - i) == evict_down(
                        orig_birds,
                        orig_rng,
                        count as int,
                    ),
                    self.configs == old(self).configs,
                    self.max_flock_size == old(self).max_flock_size,
                    forall|k: int|
                        0 <= k < self.birds@.len() ==> pos_ok(
                            #[trigger] birds_view(self.birds@)[k].position,
                        ),
                decreases count - i,
            {
                proof {
                    assert(0 < self.birds@.len() < 0xffff_ffff);
                }
                let hi: u32 = self.birds.len() as u32;
                let d = rng_range(self.rng, 0, hi);
                let ghost before = birds_view(self.birds@);
                self.birds.remove(d.0 as usize);
                self.rng = d.1;
                i = i + 1;
                proof {
                    assert(birds_view(self.birds@) =~= before.remove(d.0 as int));
                }
            }
        }
        self.max_flock_size = new_max_flock_size;
    }

    /// Draw a species id for a new agent, each id's probability
    /// proportional to its spawn weight. Falls back to the first
    /// registered id when the total weight is not positive, and to nothing
    /// when the registry is empty.
    pub fn choose_config_id_for_spawn(&mut self) -> (r: Option<String>)
        requires
            old(self).wf(),
        ensures
            final(self).wf(),
            final(self)@ == (FlockV { rng: choose_spec(old(self)@).1, ..old(self)@ }),
            match r {
                Some(s) => choose_spec(old(self)@).0 == Some(s@),
                None => choose_spec(old(self)@).0 is None,
            },
    {
        let ghost rv = registry_view(self.configs@);
        if self.configs.len() == 0 {
            return None;
        }
        let n: usize = self.configs.len();
        let mut total: i64 = 0;
        let mut j: usize = 0;
        while j < n
            invariant
                j <= n,
                n == self.configs@.len(),
                rv == registry_view(self.configs@),
                self.birds == old(self).birds,
                self.configs == old(self).configs,
                self.rng == old(self).rng,
                self.max_flock_size == old(self).max_flock_size,
                total as int == total_weight(rv, j as int),
                -0x8000_0000 * (j as int) <= total as int <= 0x8000_0000 * (j as int),
                n <= 0xffff_ffff,
            decreases n - j,
        {
            total = total + (self.configs[j].1.probability as i64);
            j = j + 1;
        }
        if total <= 0 {
            return Some(self.configs[0].0.clone());
        }
        let drawn: i64 = if total <= 0xffff_ffff {
            let d = rng_range(self.rng, 0, total as u32);
            self.rng = d.1;
            d.0 as i64
        } else {
            let a = rng_u32(self.rng);
            let b = rng_u32(a.1);
            self.rng = b.1;
            let wide: u64 = (a.0 as u64) * 0x1_0000_0000u64 + (b.0 as u64);
            (wide % (total as u64)) as i64
        };
        proof {
            assert(choose_spec(old(self)@) == (
                Some(rv[weighted_from(rv, drawn as int, 0)].0),
                self.rng,
            ));
        }
        let mut rem: i128 = drawn as i128;
        let mut k: usize = 0;
        while k < n
            invariant
                k <= n,
                n == self.configs@.len(),
                rv == registry_view(self.configs@),
                self.birds == old(self).birds,
                self.configs == old(self).configs,
                self.max_flock_size == old(self).max_flock_size,
                old(self).wf(),
                self.rng.1 == old(self).rng.1,
                choose_spec(old(self)@) == (
                    Some(rv[weighted_from(rv, drawn as int, 0)].0),
                    self.rng,
                ),
                weighted_from(rv, rem as int, k as int) == weighted_from(rv, drawn as int, 0),
                -0x8000_0000_0000_0000 - 0x8000_0000 * (k as int) <= rem as int
                    <= 0x8000_0000_0000_0000 + 0x8000_0000 * (k as int),
                n <= 0xffff_ffff,
            decreases n - k,
        {
            let p: i128 = self.configs[k].1.probability as i128;
            if p > rem {
                return Some(self.configs[k].0.clone());
            }
            rem = rem - p;
            k = k + 1;
        }
        Some(self.configs[0].0.clone())
    }
}

/// Unfolding of [`sim_step_pre`] before the first agent.
proof fn lemma_sim_step_zero(bs: Seq<BirdV>, rv: Seq<(Seq<char>, BirdConfigV)>, w: int, h: int, dt: int)
    ensures
        sim_step_pre(bs, rv, 0, w, h, dt) == (
            Seq::<BirdV>::empty(),
            Seq::<int>::empty(),
            Seq::<int>::empty(),
        ),
{
    reveal_with_fuel(sim_step_pre, 1);
}

/// Unfolding of [`sim_step_pre`] at an agent whose species is gone.
proof fn lemma_sim_step_none(
    bs: Seq<BirdV>,
    rv: Seq<(Seq<char>, BirdConfigV)>,
    j: int,
    w: int,
    h: int,
    dt: int,
)
    requires
        0 <= j < bs.len(),
        find_config(rv, bs[j].config_id) is None,
    ensures
        sim_step_pre(bs, rv, j + 1, w, h, dt) == sim_step_pre(bs, rv, j, w, h, dt),
{
    reveal_with_fuel(sim_step_pre, 2);
}

/// Unfolding of [`sim_step_pre`] at an agent whose species is registered.
proof fn lemma_sim_step_some(
    bs: Seq<BirdV>,
    rv: Seq<(Seq<char>, BirdConfigV)>,
    j: int,
    w: int,
    h: int,
    dt: int,
    cfg: BirdConfigV,
    nbv: BirdV,
)
    requires
        0 <= j < bs.len(),
        find_config(rv, bs[j].config_id) == Some(cfg),
        nbv == bird_step(bs[j], neighbors_of(bs, j, cfg.neighbor_distance), cfg, w, h, dt),
    ensures
        sim_step_pre(bs, rv, j + 1, w, h, dt) == (
            sim_step_pre(bs, rv, j, w, h, dt).0.push(nbv),
            sim_step_pre(bs, rv, j, w, h, dt).1 + tri_flat(nbv, cfg),
            sim_step_pre(bs, rv, j, w, h, dt).2 + color_flat(cfg),
        ),
{
    reveal_with_fuel(sim_step_pre, 2);
}

/// Query the spatial index around one agent and advance that agent by a
/// full force-integrate-wrap step.
fn step_one_bird(
    birds: &Vec<Bird>,
    tree: &crate::spatial::SpatialIndex,
    cfg: &BirdConfig,
    j: usize,
    width: i64,
    height: i64,
    time_step: i64,
) -> (nb: Bird)
    requires
        j < birds@.len(),
        kd_points(*tree) == kd_arrange(index_points_v(birds_view(birds@))),
        kd_points(*tree).to_multiset() == index_points(birds@).to_multiset(),
        kd_coords_ok(kd_points(*tree)),
        index_points(birds@) == index_points_v(birds_view(birds@)),
        pos_ok(birds_view(birds@)[j as int].position),
        birds@.len() <= u64::MAX,
        cfg_wf(cfg@),
        0 < width <= MAX_VIEWPORT,
        0 < height <= MAX_VIEWPORT,
    ensures
        nb@ == bird_step(
            birds_view(birds@)[j as int],
            neighbors_of(birds_view(birds@), j as int, cfg@.neighbor_distance),
            cfg@,
            width as int,
            height as int,
            time_step as int,
        ),
        pos_ok(nb@.position),
{
    let ghost bs = birds_view(birds@);
    proof {
        assert(bs[j as int].position == (
            birds@[j as int].position.x as int,
            birds@[j as int].position.y as int,
        ));
    }
    let px: i64 = birds[j].position.x;
    let py: i64 = birds[j].position.y;
    let found = crate::spatial::kd_within_radius(tree, px, py, cfg.neighbor_distance);
    proof {
        crate::spatial::lemma_query_items_resolve(birds@, *tree, found@, px, py, cfg.neighbor_distance);
    }
    let neighbors = crate::spatial::resolve_neighbors(birds, &found);
    proof {
        assert(pairs_view(neighbors@) =~= neighbors_of(bs, j as int, cfg@.neighbor_distance)) by {
            reveal(neighbors_of);
            let m1 = pairs_view(neighbor_pairs(birds@, found@));
            let m2 = neighbors_of(bs, j as int, cfg@.neighbor_distance);
            assert(found@ == kd_range_order(
                kd_arrange(index_points_v(bs)),
                bs[j as int].position.0 as i64,
                bs[j as int].position.1 as i64,
                cfg@.neighbor_distance as i64,
            ));
            assert forall|i: int| 0 <= i < m1.len() implies m1[i] == m2[i] by {
                let it = found@[i];
                assert(it.2 < birds@.len());
                assert(bs[it.2 as int] == birds@[it.2 as int]@);
            }
        }
    }
    let mut nb = Bird {
        position: birds[j].position,
        velocity: birds[j].velocity,
        acceleration: birds[j].acceleration,
        config_id: birds[j].config_id.clone(),
    };
    proof {
        assert(nb@ == bs[j as int]);
    }
    nb.update_bird(&neighbors, cfg, width, height, time_step);
    proof {
        reveal(bird_step);
        let nbv = nb@;
        lemma_wrap_pos_ok(
            crate::vec2::vs_add(bs[j as int].position, crate::vec2::vs_scale(nbv.velocity, time_step as int)),
            cfg@.bird_size,
            width as int,
            height as int,
        );
    }
    nb
}

/// Append one triangle's nine position entries (x, y and a zero z per
/// corner) to the flat buffer.
fn push_triangle(buf: &mut Vec<i64>, t: (Vec2, Vec2, Vec2))
    ensures
        int_seq(final(buf)@) == int_seq(old(buf)@) + seq![
            t.0@.0,
            t.0@.1,
            0int,
            t.1@.0,
            t.1@.1,
            0int,
            t.2@.0,
            t.2@.1,
            0int,
        ],
{
    buf.push(t.0.x);
    buf.push(t.0.y);
    buf.push(0);
    buf.push(t.1.x);
    buf.push(t.1.y);
    buf.push(0);
    buf.push(t.2.x);
    buf.push(t.2.y);
    buf.push(0);
    proof {
        assert(int_seq(buf@) =~= int_seq(old(buf)@) + seq![
            t.0@.0,
            t.0@.1,
            0int,
            t.1@.0,
            t.1@.1,
            0int,
            t.2@.0,
            t.2@.1,
            0int,
        ]);
    }
}

/// Append one triangle's nine color entries (the species color per
/// corner) to the flat buffer.
fn push_triangle_color(buf: &mut Vec<i64>, r: i64, g: i64, b: i64)
    ensures
        int_seq(final(buf)@) == int_seq(old(buf)@) + seq![
            r as int,
            g as int,
            b as int,
            r as int,
            g as int,
            b as int,
            r as int,
            g as int,
            b as int,
        ],
{
    buf.push(r);
    buf.push(g);
    buf.push(b);
    buf.push(r);
    buf.push(g);
    buf.push(b);
    buf.push(r);
    buf.push(g);
    buf.push(b);
    proof {
        assert(int_seq(buf@) =~= int_seq(old(buf)@) + seq![
            r as int,
            g as int,
            b as int,
            r as int,
            g as int,
            b as int,
            r as int,
            g as int,
            b as int,
        ]);
    }
}

impl Flock {
    /// Advance the whole simulation by `time_step` and collect the frame's
    /// geometry: the spatial index is rebuilt from the current positions,
    /// every agent is steered, integrated and wrapped against it, agents
    /// of unregistered species are dropped, and the surviving agents'
    /// triangles are returned as a flat position buffer (x, y, 0 per
    /// vertex) with a matching flat color buffer (r, g, b per vertex).
    #[verifier::rlimit(100)]
    pub fn step_collect_geometry(&mut self, width: i64, height: i64, time_step: i64) -> (r: (
        Vec<i64>,
        Vec<i64>,
    ))
        requires
            old(self).wf(),
            0 < width <= MAX_VIEWPORT,
            0 < height <= MAX_VIEWPORT,
            0 <= time_step,
        ensures
            final(self).wf(),
            final(self)@ == flock_step(
                old(self)@,
                width as int,
                height as int,
                time_step as int,
            ).0,
            int_seq(r.0@) == flock_step(old(self)@, width as int, height as int, time_step as int).1,
            int_seq(r.1@) == flock_step(old(self)@, width as int, height as int, time_step as int).2,
    {
        let ghost bs = birds_view(old(self).birds@);
        let ghost rv = registry_view(old(self).configs@);
        let ghost w = width as int;
        let ghost h = height as int;
        let ghost dt = time_step as int;

        let pts = build_points(&self.birds);
        let tree = kd_build(pts);
        proof {
            lemma_index_points_views(self.birds@);
            assert(kd_coords_ok(index_points(self.birds@))) by {
                assert forall|i: int|
                    0 <= i < index_points(self.birds@).len() implies -KD_COORD_MAX <= (
                #[trigger] index_points(self.birds@)[i]).0 <= KD_COORD_MAX && -KD_COORD_MAX
                    <= index_points(self.birds@)[i].1 <= KD_COORD_MAX by {
                    assert(pos_ok(bs[i].position));
                }
            }
            crate::spatial::lemma_points_coords_ok(kd_points(tree), index_points(self.birds@));
        }

        let mut new_birds: Vec<Bird> = Vec::new();
        let mut vertices: Vec<i64> = Vec::new();
        let mut colors: Vec<i64> = Vec::new();
        proof {
            lemma_sim_step_zero(bs, rv, w, h, dt);
            assert(birds_view(new_birds@) =~= Seq::<BirdV>::empty());
            assert(int_seq(vertices@) =~= Seq::<int>::empty());
            assert(int_seq(colors@) =~= Seq::<int>::empty());
        }
        let mut j: usize = 0;
        let n: usize = self.birds.len();
        while j < n
            invariant
                j <= n,
                n == self.birds@.len(),
                old(self).wf(),
                self.birds == old(self).birds,
                self.configs == old(self).configs,
                self.rng == old(self).rng,
                self.max_flock_size == old(self).max_flock_size,
                bs == birds_view(self.birds@),
                rv == registry_view(self.configs@),
                w == width as int && h == height as int && dt == time_step as int,
                0 < width <= MAX_VIEWPORT,
                0 < height <= MAX_VIEWPORT,
                kd_points(tree) == kd_arrange(index_points_v(bs)),
                kd_points(tree).to_multiset() == index_points(self.birds@).to_multiset(),
                kd_coords_ok(kd_points(tree)),
                index_points(self.birds@) == index_points_v(bs),
                (birds_view(new_birds@), int_seq(vertices@), int_seq(colors@)) == sim_step_pre(
                    bs,
                    rv,
                    j as int,
                    w,
                    h,
                    dt,
                ),
                forall|k: int|
                    0 <= k < new_birds@.len() ==> pos_ok(
                        #[trigger] birds_view(new_birds@)[k].position,
                    ),
                new_birds@.len() <= j,
            decreases n - j,
        {
            proof {
                lemma_find_key_idx(rv, bs[j as int].config_id);
                assert(bs[j as int].config_id == self.birds@[j as int].config_id@);
            }
            match config_index(&self.configs, &self.birds[j].config_id) {
                None => {
                    proof {
                        lemma_sim_step_none(bs, rv, j as int, w, h, dt);
                    }
                },
                Some(ci) => {
                    proof {
                        assert(0 <= ci < rv.len());
                        assert(rv[ci as int].1 == self.configs@[ci as int].1@);
                        assert(find_config(rv, bs[j as int].config_id) == Some(rv[ci as int].1));
                        assert(cfg_wf(rv[ci as int].1));
                        assert(pos_ok(bs[j as int].position));
                    }
                    let cfg = &self.configs[ci].1;
                    let nb = step_one_bird(&self.birds, &tree, cfg, j, width, height, time_step);
                    let ghost nbv = nb@;
                    let t = nb.get_vertices(cfg);
                    push_triangle(&mut vertices, t);
                    push_triangle_color(&mut colors, cfg.color_r, cfg.color_g, cfg.color_b);
                    let ghost old_new_birds = new_birds@;
                    new_birds.push(nb);
                    proof {
                        lemma_sim_step_some(bs, rv, j as int, w, h, dt, rv[ci as int].1, nbv);
                        assert(birds_view(new_birds@) =~= birds_view(old_new_birds).push(nbv));
                    }
                },
            }
            j = j + 1;
        }
        self.birds = new_birds;
        proof {
            assert(birds_view(self.birds@) == sim_step_pre(bs, rv, bs.len() as int, w, h, dt).0);
        }
        (vertices, colors)
    }
}
/// The lowercase hex digit for a nibble.
pub open spec fn hex_digit(n: int) -> char {
    if n == 0 {
        '0'
    } else if n == 1 {
        '1'
    } else if n == 2 {
        '2'
    } else if n == 3 {
        '3'
    } else if n == 4 {
        '4'
    } else if n == 5 {
        '5'
    } else if n == 6 {
        '6'
    } else if n == 7 {
        '7'
    } else if n == 8 {
        '8'
    } else if n == 9 {
        '9'
    } else if n == 10 {
        'a'
    } else if n == 11 {
        'b'
    } else if n == 12 {
        'c'
    } else if n == 13 {
        'd'
    } else if n == 14 {
        'e'
    } else {
        'f'
    }
}

/// The eight lowercase hex digits of a 32-bit value, most significant
/// first — the shape of a randomly generated species id.
pub open spec fn hex8(v: int) -> Seq<char> {
    seq![
        hex_digit((v / 0x1000_0000) % 16),
        hex_digit((v / 0x100_0000) % 16),
        hex_digit((v / 0x10_0000) % 16),
        hex_digit((v / 0x1_0000) % 16),
        hex_digit((v / 0x1000) % 16),
        hex_digit((v / 0x100) % 16),
        hex_digit((v / 0x10) % 16),
        hex_digit(v % 16),
    ]
}

/// One nibble as a one-character string slice.
fn hex_digit_str(d: u32) -> (r: &'static str)
    requires
        d < 16,
    ensures
        r@ == seq![hex_digit(d as int)],
{
    proof {
        reveal_strlit("0");
        reveal_strlit("1");
        reveal_strlit("2");
        reveal_strlit("3");
        reveal_strlit("4");
        reveal_strlit("5");
        reveal_strlit("6");
        reveal_strlit("7");
        reveal_strlit("8");
        reveal_strlit("9");
        reveal_strlit("a");
        reveal_strlit("b");
        reveal_strlit("c");
        reveal_strlit("d");
        reveal_strlit("e");
        reveal_strlit("f");
    }
    let r: &'static str = if d == 0 {
        "0"
    } else if d == 1 {
        "1"
    } else if d == 2 {
        "2"
    } else if d == 3 {
        "3"
    } else if d == 4 {
        "4"
    } else if d == 5 {
        "5"
    } else if d == 6 {
        "6"
    } else if d == 7 {
        "7"
    } else if d == 8 {
        "8"
    } else if d == 9 {
        "9"
    } else if d == 10 {
        "a"
    } else if d == 11 {
        "b"
    } else if d == 12 {
        "c"
    } else if d == 13 {
        "d"
    } else if d == 14 {
        "e"
    } else {
        "f"
    };
    proof {
        assert(r@ =~= seq![hex_digit(d as int)]);
    }
    r
}

/// Format a 32-bit value as its eight lowercase hex digits.
fn format_hex8(v: u32) -> (r: String)
    ensures
        r@ == hex8(v as int),
{
    let mut s = String::new();
    s.append(hex_digit_str((v / 0x1000_0000) % 16));
    s.append(hex_digit_str((v / 0x100_0000) % 16));
    s.append(hex_digit_str((v / 0x10_0000) % 16));
    s.append(hex_digit_str((v / 0x1_0000) % 16));
    s.append(hex_digit_str((v / 0x1000) % 16));
    s.append(hex_digit_str((v / 0x100) % 16));
    s.append(hex_digit_str((v / 0x10) % 16));
    s.append(hex_digit_str(v % 16));
    proof {
        assert(s@ =~= hex8(v as int));
    }
    s
}

/// The flock after registering a whole new randomized species: a random
/// parameter target becomes the config, and a fresh 32-bit draw, written
/// as eight hex digits, becomes its id.
pub open spec fn add_species_random_spec(f: FlockV) -> FlockV {
    let drawn = crate::animation::target_random(f.rng);
    let di = rand32_next(drawn.1);
    let id = hex8(di.0 as int);
    let t = drawn.0;
    let c = BirdConfigV {
        id: id,
        probability: t.probability as int,
        neighbor_distance: t.neighbor_distance as int,
        desired_separation: t.desired_separation as int,
        separation_multiplier: t.separation_multiplier as int,
        alignment_multiplier: t.alignment_multiplier as int,
        cohesion_multiplier: t.cohesion_multiplier as int,
        max_speed: t.max_speed as int,
        max_force: t.max_force as int,
        bird_size: t.bird_size as int,
        color_r: crate::animation::u8_to_fx(t.color.r as int),
        color_g: crate::animation::u8_to_fx(t.color.g as int),
        color_b: crate::animation::u8_to_fx(t.color.b as int),
    };
    FlockV { configs: insert_config(f.configs, id, c), rng: di.1, ..f }
}

impl Flock {
    /// Register a whole new species with uniformly random parameters
    /// under a freshly drawn eight-hex-digit id.
    pub fn add_species_random(&mut self)
        requires
            old(self).wf(),
            old(self)@.configs.len() < 0xffff_ffff,
        ensures
            final(self).wf(),
            final(self)@ == add_species_random_spec(old(self)@),
    {
        let drawn = crate::animation::BirdConfigTarget::random(self.rng);
        let t = drawn.0;
        let di = rng_u32(drawn.1);
        self.rng = di.1;
        let id = format_hex8(di.0);
        let cfg = BirdConfig::new(
            id.clone(),
            t.probability,
            t.neighbor_distance,
            t.desired_separation,
            t.separation_multiplier,
            t.alignment_multiplier,
            t.cohesion_multiplier,
            t.max_speed,
            t.max_force,
            t.bird_size,
            crate::animation::channel_to_fx(t.color.r),
            crate::animation::channel_to_fx(t.color.g),
            crate::animation::channel_to_fx(t.color.b),
        );
        self.insert_bird_config(id, cfg);
    }
}

/// Half of a fixed-point extent.
fn half_of(w: i64) -> (r: i64)
    ensures
        r as int == crate::fixed::sat_mul(w as int, crate::fixed::FX_HALF as int),
{
    crate::fixed::fx_mul(w, crate::fixed::FX_HALF)
}

/// The flock after spawning an agent of species `id` at a random position
/// in the centered `width` by `height` rectangle: two unit draws place it,
/// then the spawn proceeds as in [`add_bird_spec`].
pub open spec fn add_bird_at_random_spec(f: FlockV, id: Seq<char>, width: int, height: int) -> FlockV {
    let d1 = rand32_next_unit(f.rng);
    let d2 = rand32_next_unit(d1.1);
    let x = sat_sub(
        crate::fixed::sat_mul(d1.0 as int, width),
        crate::fixed::sat_mul(width, crate::fixed::FX_HALF as int),
    );
    let y = sat_sub(
        crate::fixed::sat_mul(d2.0 as int, height),
        crate::fixed::sat_mul(height, crate::fixed::FX_HALF as int),
    );
    add_bird_spec(FlockV { rng: d2.1, ..f }, id, x, y)
}

/// A spawn coordinate drawn over an extent within [`MAX_VIEWPORT`] stays
/// within [`MAX_POSITION`].
proof fn lemma_spawn_coord_in_range(u: int, w: int)
    requires
        0 <= u < crate::fixed::FX_ONE,
        -MAX_VIEWPORT <= w <= MAX_VIEWPORT,
    ensures
        -MAX_POSITION <= sat_sub(
            crate::fixed::sat_mul(u, w),
            crate::fixed::sat_mul(w, crate::fixed::FX_HALF as int),
        ) <= MAX_POSITION,
{
    crate::fixed::lemma_sat_mul_bound(
        u,
        w,
        crate::fixed::FX_ONE as int,
        MAX_VIEWPORT as int,
        MAX_VIEWPORT as int,
    );
    crate::fixed::lemma_sat_mul_bound(
        w,
        crate::fixed::FX_HALF as int,
        MAX_VIEWPORT as int,
        crate::fixed::FX_HALF as int,
        0x800_0000,
    );
}

/// The index items of a population snapshot, at the view level.
pub open spec fn index_points_v(bs: Seq<BirdV>) -> Seq<(i64, i64, u64)> {
    Seq::new(bs.len(), |j: int| (bs[j].position.0 as i64, bs[j].position.1 as i64, j as u64))
}

/// The neighbors the agent at `j` sees in one step: the index is built
/// from the whole snapshot and queried around the agent's own position
/// with its species' perception radius — so the agent finds itself too —
/// and each found item resolves to the owning agent's position and
/// velocity.
#[verifier::opaque]
pub open spec fn neighbors_of(bs: Seq<BirdV>, j: int, radius: int) -> Seq<
    ((int, int), (int, int)),
> {
    let pts = kd_arrange(index_points_v(bs));
    let found = kd_range_order(
        pts,
        bs[j].position.0 as i64,
        bs[j].position.1 as i64,
        radius as i64,
    );
    found.map_values(|it: (i64, i64, u64)| (bs[it.2 as int].position, bs[it.2 as int].velocity))
}

/// The nine position-buffer entries of one agent's triangle: x, y and a
/// zero z for each of the three corners.
pub open spec fn tri_flat(b: BirdV, cfg: BirdConfigV) -> Seq<int> {
    let t = tri_vertices(b.position, b.velocity, cfg.bird_size);
    seq![t.0.0, t.0.1, 0int, t.1.0, t.1.1, 0int, t.2.0, t.2.1, 0int]
}

/// The nine color-buffer entries matching one agent's triangle: the
/// species color once per corner.
pub open spec fn color_flat(cfg: BirdConfigV) -> Seq<int> {
    seq![
        cfg.color_r,
        cfg.color_g,
        cfg.color_b,
        cfg.color_r,
        cfg.color_g,
        cfg.color_b,
        cfg.color_r,
        cfg.color_g,
        cfg.color_b,
    ]
}

/// The simulation step over the first `j` agents of the snapshot: the
/// survivors, each advanced by [`bird_step`] against the snapshot's
/// spatial index, and the geometry gathered so far. An agent whose
/// species is no longer registered is dropped without being updated.
#[verifier::opaque]
pub open spec fn sim_step_pre(
    bs: Seq<BirdV>,
    cfgs: Seq<(Seq<char>, BirdConfigV)>,
    j: int,
    w: int,
    h: int,
    dt: int,
) -> (Seq<BirdV>, Seq<int>, Seq<int>)
    decreases j,
{
    if j <= 0 {
        (Seq::<BirdV>::empty(), Seq::<int>::empty(), Seq::<int>::empty())
    } else {
        let prev = sim_step_pre(bs, cfgs, j - 1, w, h, dt);
        match find_config(cfgs, bs[j - 1].config_id) {
            Option::None => prev,
            Option::Some(cfg) => {
                let nb = bird_step(
                    bs[j - 1],
                    neighbors_of(bs, j - 1, cfg.neighbor_distance),
                    cfg,
                    w,
                    h,
                    dt,
                );
                (prev.0.push(nb), prev.1 + tri_flat(nb, cfg), prev.2 + color_flat(cfg))
            },
        }
    }
}

/// One whole simulation step: every agent advanced against the start-of-
/// step snapshot, agents of unregistered species dropped, and the flat
/// position and color buffers of the resulting triangles.
pub open spec fn flock_step(f: FlockV, w: int, h: int, dt: int) -> (FlockV, Seq<int>, Seq<int>) {
    let r = sim_step_pre(f.birds, f.configs, f.birds.len() as int, w, h, dt);
    (FlockV { birds: r.0, ..f }, r.1, r.2)
}

/// A buffer's entries as unbounded integers.
pub open spec fn int_seq(s: Seq<i64>) -> Seq<int> {
    s.map_values(|v: i64| v as int)
}

/// The two index-item spellings — over agents and over their views —
/// agree.
proof fn lemma_index_points_views(birds: Seq<Bird>)
    ensures
        index_points(birds) == index_points_v(birds_view(birds)),
{
    assert(index_points(birds) =~= index_points_v(birds_view(birds)));
}

/// A position wrapped against an in-range viewport, for an in-range
/// species size, is an in-range position.
proof fn lemma_wrap_pos_ok(p: (int, int), size: int, width: int, height: int)
    requires
        0 <= size <= crate::bird_config::MAX_BIRD_SIZE,
        0 < width <= MAX_VIEWPORT,
        0 < height <= MAX_VIEWPORT,
        i64::MIN <= p.0 <= i64::MAX,
        i64::MIN <= p.1 <= i64::MAX,
    ensures
        pos_ok(wrap_position(p, size, width, height)),
{
    let one_one = crate::bird::FX_BORDER as int;
    let half = crate::fixed::FX_HALF as int;
    crate::fixed::lemma_sat_mul_bound(width as int, one_one, MAX_VIEWPORT as int, one_one, 295276544);
    crate::fixed::lemma_sat_mul_nonneg(width as int, one_one);
    crate::fixed::lemma_sat_mul_bound(
        crate::fixed::sat_mul(width as int, one_one),
        half,
        295276544,
        half,
        147638272,
    );
    crate::fixed::lemma_sat_mul_nonneg(crate::fixed::sat_mul(width as int, one_one), half);
    crate::fixed::lemma_sat_mul_bound(height as int, one_one, MAX_VIEWPORT as int, one_one, 295276544);
    crate::fixed::lemma_sat_mul_nonneg(height as int, one_one);
    crate::fixed::lemma_sat_mul_bound(
        crate::fixed::sat_mul(height as int, one_one),
        half,
        295276544,
        half,
        147638272,
    );
    crate::fixed::lemma_sat_mul_nonneg(crate::fixed::sat_mul(height as int, one_one), half);
    crate::fixed::lemma_sat_mul_bound(
        size,
        crate::bird::FX_3_HALVES as int,
        crate::bird_config::MAX_BIRD_SIZE as int,
        crate::bird::FX_3_HALVES as int,
        201326592,
    );
    crate::fixed::lemma_sat_mul_nonneg(size, crate::bird::FX_3_HALVES as int);
    crate::bird::lemma_wrap_coord_bounded(
        p.0,
        crate::bird::half_extent(width as int),
        crate::bird::inflated_radius(size),
    );
    crate::bird::lemma_wrap_coord_bounded(
        p.1,
        crate::bird::half_extent(height as int),
        crate::bird::inflated_radius(size),
    );
}

/// The registry after registering `c` under `id`: a replacement in place
/// at the first slot holding `id`, else appended.
pub open spec fn insert_config(
    cfgs: Seq<(Seq<char>, BirdConfigV)>,
    id: Seq<char>,
    c: BirdConfigV,
) -> Seq<(Seq<char>, BirdConfigV)> {
    let k = find_key_idx(cfgs, id);
    if k < 0 {
        cfgs.push((id, c))
    } else {
        cfgs.update(k, (id, c))
    }
}

/// The registry after dropping the first slot holding `id`, if any.
pub open spec fn remove_config(cfgs: Seq<(Seq<char>, BirdConfigV)>, id: Seq<char>) -> Seq<
    (Seq<char>, BirdConfigV),
> {
    let k = find_key_idx(cfgs, id);
    if k < 0 {
        cfgs
    } else {
        cfgs.remove(k)
    }
}

} // verus!
