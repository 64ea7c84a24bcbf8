//! The simulation engine.
//!
//! A `System` owns the ordered collection of bodies.  Each step starts its
//! net-force table from a zero-force entry per body, accumulates every
//! unordered pair of distinct bodies — the pair is selected once, by
//! identifier order, and the reaction force is the scaled negation of the
//! computed force, never an independent second computation — then advances
//! every body one time step and records a snapshot.  The contracts pin the whole run: the k-th snapshot carries the
//! k-fold iterated step of the initial state and the k-fold accumulated
//! elapsed time.

use vstd::prelude::*;

use crate::fp::lt_bits;
use crate::fp::scal_add;
use crate::fp::scal_lt;
use crate::fp::Scalar;
use crate::fp::NEG_ONE_BITS;
use crate::fp::POS_ZERO;
use crate::physics::spec_apply_force;
use crate::physics::spec_force_add;
use crate::physics::spec_force_scale;
use crate::physics::spec_grav_force;
use crate::physics::Force;
use crate::physics::Planet;
use crate::physics::Position;
use crate::physics::SimError;
use crate::table::lemma_chars_lt_asym;
use crate::table::lemma_chars_lt_irrefl;
use crate::table::spec_chars_lt;
use crate::table::spec_find;
use crate::table::spec_insert;
use crate::table::spec_lookup;
use crate::table::spec_remove_entry;
use crate::table::lemma_remove_preserves_lookup;
use crate::table::str_eq;
use crate::table::str_lt;
use crate::table::AssocVec;

verus! {

/// A snapshot: the elapsed time and, per body identifier, the position at
/// that time.  Immutable once constructed; the engine appends one per step.
pub struct TimePosition {
    pub time: Scalar,
    pub positions: AssocVec<Position>,
}

impl TimePosition {
    pub fn new(time: Scalar, positions: AssocVec<Position>) -> (r: TimePosition)
        ensures
            r.time == time,
            r.positions == positions,
    {
        TimePosition { time, positions }
    }
}

/// The simulation engine: the exclusive owner of the body collection.
pub struct System {
    planets: Vec<Planet>,
}

/// No two bodies share an identifier.
pub open spec fn spec_ids_unique(planets: Seq<Planet>) -> bool {
    forall|i: int, j: int|
        0 <= i < j < planets.len() ==> (#[trigger] planets[i].id)@ != (#[trigger] planets[j].id)@
}

/// The force accumulated so far for one identifier: absent entries stand
/// for the zero force.
pub open spec fn spec_zero_force() -> Force {
    Force(Scalar(POS_ZERO), Scalar(POS_ZERO))
}

/// Accumulating a force into the table: the entry starts from the zero
/// force and is increased component-wise.
pub open spec fn spec_accumulate(
    t: Seq<(Seq<char>, Force)>,
    id: Seq<char>,
    f: Force,
) -> Seq<(Seq<char>, Force)> {
    let cur = match spec_lookup(t, id) {
        Some(g) => g,
        None => spec_zero_force(),
    };
    spec_insert(t, id, spec_force_add(cur, f))
}

/// One candidate pair (a, b): selected only when a's identifier comes first;
/// the force on a is computed, and the reaction force on b is its scaling
/// by -1.0 — Newton's third law by construction.
pub open spec fn spec_pair_step(
    t: Seq<(Seq<char>, Force)>,
    a: Planet,
    b: Planet,
) -> Seq<(Seq<char>, Force)> {
    if spec_chars_lt(a.id@, b.id@) {
        let f1 = spec_grav_force(a, b);
        spec_accumulate(
            spec_accumulate(t, a.id@, f1),
            b.id@,
            spec_force_scale(f1, Scalar(NEG_ONE_BITS)),
        )
    } else {
        t
    }
}

/// The inner loop: candidate pairs (i, 0) .. (i, j-1), in order.
pub open spec fn spec_table_inner(
    t: Seq<(Seq<char>, Force)>,
    planets: Seq<Planet>,
    i: int,
    j: int,
) -> Seq<(Seq<char>, Force)>
    decreases j,
{
    if j <= 0 {
        t
    } else {
        spec_pair_step(spec_table_inner(t, planets, i, j - 1), planets[i], planets[j - 1])
    }
}

/// The outer loop: every candidate pair with first index below i, in order.
pub open spec fn spec_table_outer(
    t: Seq<(Seq<char>, Force)>,
    planets: Seq<Planet>,
    i: int,
) -> Seq<(Seq<char>, Force)>
    decreases i,
{
    if i <= 0 {
        t
    } else {
        spec_table_inner(
            spec_table_outer(t, planets, i - 1),
            planets,
            i - 1,
            planets.len() as int,
        )
    }
}

/// The starting table: a zero-force entry for every body identifier, in
/// body order.  Every body has an entry before any pair is considered, so a
/// body that belongs to no pair — a lone body — still receives its (zero)
/// net force.
pub open spec fn spec_zero_table(planets: Seq<Planet>) -> Seq<(Seq<char>, Force)>
    decreases planets.len(),
{
    if planets.len() == 0 {
        Seq::empty()
    } else {
        spec_insert(spec_zero_table(planets.drop_last()), planets.last().id@, spec_zero_force())
    }
}

/// The net-force table of the current instant: a pure function of the body
/// collection.  It starts from a zero-force entry per body and accumulates
/// every selected pair.
pub open spec fn spec_force_table(planets: Seq<Planet>) -> Seq<(Seq<char>, Force)> {
    spec_table_outer(spec_zero_table(planets), planets, planets.len() as int)
}

/// One body after one step: its net force is looked up in the force table
/// of the start-of-step states, so no in-step mutation is ever seen.  The
/// table holds an entry for every body; the fallback arm only keeps the
/// specification total.
pub open spec fn spec_step_planet(planets: Seq<Planet>, k: int, dt: Scalar) -> Planet {
    let p = planets[k];
    match spec_lookup(spec_force_table(planets), p.id@) {
        Some(f) => spec_apply_force(p, f, dt),
        None => p,
    }
}

/// All bodies advanced by one time step.
pub open spec fn spec_step(planets: Seq<Planet>, dt: Scalar) -> Seq<Planet> {
    Seq::new(planets.len(), |k: int| spec_step_planet(planets, k, dt))
}

/// The body collection after k steps.
pub open spec fn spec_states(planets: Seq<Planet>, dt: Scalar, k: nat) -> Seq<Planet>
    decreases k,
{
    if k == 0 {
        planets
    } else {
        spec_step(spec_states(planets, dt, (k - 1) as nat), dt)
    }
}

/// The elapsed time after k steps: k accumulated additions of the step.
pub open spec fn spec_elapsed(dt: Scalar, k: nat) -> Scalar
    decreases k,
{
    if k == 0 {
        Scalar(POS_ZERO)
    } else {
        Scalar(crate::fp::single_add(spec_elapsed(dt, (k - 1) as nat).0, dt.0))
    }
}

/// The snapshot map of a body collection: one entry per identifier, in
/// insertion order, later bodies overwriting earlier ones of the same name.
pub open spec fn spec_position_map(planets: Seq<Planet>) -> Seq<(Seq<char>, Position)>
    decreases planets.len(),
{
    if planets.len() == 0 {
        Seq::empty()
    } else {
        spec_insert(
            spec_position_map(planets.drop_last()),
            planets.last().id@,
            planets.last().position,
        )
    }
}

/// Stepping keeps the number of bodies and every identifier.
pub proof fn lemma_states_shape(planets: Seq<Planet>, dt: Scalar, k: nat)
    ensures
        spec_states(planets, dt, k).len() == planets.len(),
        forall|m: int|
            0 <= m < planets.len() ==> (#[trigger] spec_states(planets, dt, k)[m]).id
                == planets[m].id,
    decreases k,
{
    if k > 0 {
        lemma_states_shape(planets, dt, (k - 1) as nat);
        let prev = spec_states(planets, dt, (k - 1) as nat);
        assert forall|m: int|
            0 <= m < planets.len() implies (#[trigger] spec_states(planets, dt, k)[m]).id
            == planets[m].id by {
            assert(spec_states(planets, dt, k)[m] == spec_step_planet(prev, m, dt));
        }
    }
}

/// Stepping keeps identifier uniqueness.
pub proof fn lemma_states_unique(planets: Seq<Planet>, dt: Scalar, k: nat)
    requires
        spec_ids_unique(planets),
    ensures
        spec_ids_unique(spec_states(planets, dt, k)),
{
    lemma_states_shape(planets, dt, k);
    let st = spec_states(planets, dt, k);
    assert forall|i: int, j: int|
        0 <= i < j < st.len() implies (#[trigger] st[i].id)@ != (#[trigger] st[j].id)@ by {
        assert(st[i].id == planets[i].id);
        assert(st[j].id == planets[j].id);
    }
}

/// The force table is a pure function of the body collection: built twice
/// from the same unmutated collection, it is the same table.
pub proof fn lemma_force_table_idempotent(
    planets: Seq<Planet>,
    t1: Seq<(Seq<char>, Force)>,
    t2: Seq<(Seq<char>, Force)>,
)
    requires
        t1 == spec_force_table(planets),
        t2 == spec_force_table(planets),
    ensures
        t1 == t2,
{
}

/// Accumulating gives the identifier an entry and touches no other entry.
proof fn lemma_accumulate_lookup(
    t: Seq<(Seq<char>, Force)>,
    id: Seq<char>,
    f: Force,
    b: Seq<char>,
)
    ensures
        spec_lookup(spec_accumulate(t, id, f), id) is Some,
        b != id ==> spec_lookup(spec_accumulate(t, id, f), b) == spec_lookup(t, b),
{
    let cur = match spec_lookup(t, id) {
        Some(g) => g,
        None => spec_zero_force(),
    };
    crate::table::lemma_insert_finds_self(t, id, spec_force_add(cur, f));
    if b != id {
        crate::table::lemma_insert_preserves_lookup(t, id, spec_force_add(cur, f), b);
    }
}

/// One candidate pair keeps every existing entry.
proof fn lemma_pair_step_preserves(t: Seq<(Seq<char>, Force)>, a: Planet, b: Planet, x: Seq<char>)
    requires
        spec_lookup(t, x) is Some,
    ensures
        spec_lookup(spec_pair_step(t, a, b), x) is Some,
{
    if spec_chars_lt(a.id@, b.id@) {
        let f1 = spec_grav_force(a, b);
        let t1 = spec_accumulate(t, a.id@, f1);
        lemma_accumulate_lookup(t, a.id@, f1, x);
        lemma_accumulate_lookup(t1, b.id@, spec_force_scale(f1, Scalar(NEG_ONE_BITS)), x);
    }
}

/// The inner loop keeps every existing entry.
proof fn lemma_inner_preserves(
    t: Seq<(Seq<char>, Force)>,
    planets: Seq<Planet>,
    i: int,
    j: int,
    x: Seq<char>,
)
    requires
        spec_lookup(t, x) is Some,
    ensures
        spec_lookup(spec_table_inner(t, planets, i, j), x) is Some,
    decreases j,
{
    if j > 0 {
        lemma_inner_preserves(t, planets, i, j - 1, x);
        lemma_pair_step_preserves(
            spec_table_inner(t, planets, i, j - 1),
            planets[i],
            planets[j - 1],
            x,
        );
    }
}

/// The outer loop keeps every existing entry.
proof fn lemma_outer_preserves(
    t: Seq<(Seq<char>, Force)>,
    planets: Seq<Planet>,
    i: int,
    x: Seq<char>,
)
    requires
        spec_lookup(t, x) is Some,
    ensures
        spec_lookup(spec_table_outer(t, planets, i), x) is Some,
    decreases i,
{
    if i > 0 {
        lemma_outer_preserves(t, planets, i - 1, x);
        lemma_inner_preserves(
            spec_table_outer(t, planets, i - 1),
            planets,
            i - 1,
            planets.len() as int,
            x,
        );
    }
}

/// Every body has an entry in the starting table.
proof fn lemma_zero_table_covers(planets: Seq<Planet>)
    ensures
        forall|k: int|
            0 <= k < planets.len() ==> spec_lookup(
                spec_zero_table(planets),
                (#[trigger] planets[k].id)@,
            ) is Some,
    decreases planets.len(),
{
    if planets.len() > 0 {
        let rest = planets.drop_last();
        lemma_zero_table_covers(rest);
        let t0 = spec_zero_table(rest);
        let last_id = planets.last().id@;
        assert forall|k: int|
            0 <= k < planets.len() implies spec_lookup(
            spec_zero_table(planets),
            (#[trigger] planets[k].id)@,
        ) is Some by {
            if planets[k].id@ == last_id {
                crate::table::lemma_insert_finds_self(t0, last_id, spec_zero_force());
            } else {
                assert(k < planets.len() - 1);
                assert(rest[k] == planets[k]);
                crate::table::lemma_insert_preserves_lookup(
                    t0,
                    last_id,
                    spec_zero_force(),
                    planets[k].id@,
                );
            }
        }
    }
}

/// The force table holds an entry for every body: the starting table seeds
/// one, and every pair step keeps it.
pub proof fn lemma_force_table_covers(planets: Seq<Planet>)
    ensures
        forall|k: int|
            0 <= k < planets.len() ==> spec_lookup(
                spec_force_table(planets),
                (#[trigger] planets[k].id)@,
            ) is Some,
{
    lemma_zero_table_covers(planets);
    assert forall|k: int|
        0 <= k < planets.len() implies spec_lookup(
        spec_force_table(planets),
        (#[trigger] planets[k].id)@,
    ) is Some by {
        lemma_outer_preserves(
            spec_zero_table(planets),
            planets,
            planets.len() as int,
            planets[k].id@,
        );
    }
}

/// A lone body still has its table entry: the force table of a one-body
/// system is exactly the seeded zero-force entry, so the body is advanced
/// under a zero net force and drifts at constant velocity.
pub proof fn lemma_single_body_table(a: Planet)
    ensures
        spec_force_table(seq![a]) == seq![(a.id@, spec_zero_force())],
{
    let pl = seq![a];
    lemma_chars_lt_irrefl(a.id@);
    let e = Seq::<(Seq<char>, Force)>::empty();
    assert(pl.drop_last() =~= Seq::<Planet>::empty());
    assert(spec_zero_table(Seq::<Planet>::empty()) == e);
    assert(spec_find(e, a.id@) is None);
    let z = e.push((a.id@, spec_zero_force()));
    assert(spec_zero_table(pl) == z);
    assert(spec_table_inner(z, pl, 0, 0) == z);
    assert(spec_pair_step(z, a, a) == z);
    assert(spec_table_inner(z, pl, 0, 1) == z);
    assert(spec_table_outer(z, pl, 0) == z);
    assert(spec_table_outer(z, pl, 1) == z);
    assert(spec_force_table(pl) == z);
    assert(z =~= seq![(a.id@, spec_zero_force())]);
}

/// Newton's third law, read off the force table of a two-body system: the
/// table holds exactly one entry per body, the entry of the first-ordered
/// body accumulates the computed force f, and the entry of the other body
/// accumulates the scaling of the same f by -1.0 — it is never an
/// independently recomputed force.
pub proof fn lemma_two_body_table(a: Planet, b: Planet)
    requires
        spec_chars_lt(a.id@, b.id@),
    ensures
        ({
            let f1 = spec_grav_force(a, b);
            spec_force_table(seq![a, b]) == seq![
                (a.id@, spec_force_add(spec_zero_force(), f1)),
                (
                    b.id@,
                    spec_force_add(spec_zero_force(), spec_force_scale(f1, Scalar(NEG_ONE_BITS))),
                ),
            ]
        }),
{
    let pl = seq![a, b];
    let f1 = spec_grav_force(a, b);
    let f2 = spec_force_scale(f1, Scalar(NEG_ONE_BITS));
    lemma_chars_lt_irrefl(a.id@);
    lemma_chars_lt_irrefl(b.id@);
    lemma_chars_lt_asym(a.id@, b.id@);
    assert(a.id@ != b.id@);
    let e = Seq::<(Seq<char>, Force)>::empty();
    // the starting table seeds a zero-force entry per body, in order
    assert(pl.drop_last() =~= seq![a]);
    assert(seq![a].drop_last() =~= Seq::<Planet>::empty());
    assert(spec_zero_table(Seq::<Planet>::empty()) == e);
    assert(spec_find(e, a.id@) is None);
    assert(spec_find(e, b.id@) is None);
    let za = e.push((a.id@, spec_zero_force()));
    assert(spec_zero_table(seq![a]) == za);
    assert(za[0].0 == a.id@);
    assert(za.drop_first() =~= e);
    assert(spec_find(za, b.id@) is None);
    let z = za.push((b.id@, spec_zero_force()));
    assert(spec_zero_table(pl) == z);
    // the pair (a, b) overwrites both zero entries with accumulated forces
    assert(z[0] == (a.id@, spec_zero_force()));
    assert(z[1] == (b.id@, spec_zero_force()));
    assert(spec_find(z, a.id@) == Some(0int));
    let t1 = z.update(0, (a.id@, spec_force_add(spec_zero_force(), f1)));
    assert(spec_accumulate(z, a.id@, f1) == t1);
    assert(t1[0].0 == a.id@);
    assert(t1.drop_first() =~= seq![(b.id@, spec_zero_force())]);
    assert(spec_find(t1.drop_first(), b.id@) == Some(0int));
    assert(spec_find(t1, b.id@) == Some(1int));
    assert(t1[1] == (b.id@, spec_zero_force()));
    let t2 = t1.update(1, (b.id@, spec_force_add(spec_zero_force(), f2)));
    assert(spec_accumulate(t1, b.id@, f2) == t2);
    // the inner loop for i == 0 tries (a, a) and then (a, b)
    assert(spec_table_inner(z, pl, 0, 0) == z);
    assert(spec_pair_step(z, a, a) == z);
    assert(spec_table_inner(z, pl, 0, 1) == z);
    assert(spec_table_inner(z, pl, 0, 2) == spec_pair_step(z, a, b));
    assert(spec_pair_step(z, a, b) == t2);
    // the outer loop for i == 1 tries (b, a) and (b, b): both are skipped
    assert(spec_table_outer(z, pl, 0) == z);
    assert(spec_table_outer(z, pl, 1) == t2);
    assert(spec_table_inner(t2, pl, 1, 0) == t2);
    assert(spec_pair_step(t2, b, a) == t2);
    assert(spec_table_inner(t2, pl, 1, 1) == t2);
    assert(spec_pair_step(t2, b, b) == t2);
    assert(spec_table_inner(t2, pl, 1, 2) == t2);
    assert(spec_table_outer(z, pl, 2) == t2);
    assert(spec_force_table(pl) == t2);
    assert(t2 =~= seq![
        (a.id@, spec_force_add(spec_zero_force(), f1)),
        (b.id@, spec_force_add(spec_zero_force(), f2)),
    ]);
}

/// Accumulates a force into the table entry of one identifier, starting the
/// entry from the zero force if it is absent.
fn accumulate_force(t: &mut AssocVec<Force>, id: &String, f: &Force)
    ensures
        final(t)@ == spec_accumulate(old(t)@, id@, *f),
{
    let cur: Force = match t.get(id.as_str()) {
        Some(g) => g,
        None => Force(Scalar(POS_ZERO), Scalar(POS_ZERO)),
    };
    let sum = cur.add(f);
    t.insert(id.clone(), sum);
}

impl System {
    /// The bodies the system owns, as the contracts see them.
    pub closed spec fn spec_planets(&self) -> Seq<Planet> {
        self.planets@
    }

    /// Takes ownership of the body collection, rejecting duplicate
    /// identifiers: a duplicate would silently merge force-table entries.
    pub fn new(planets: Vec<Planet>) -> (r: Result<System, SimError>)
        ensures
            match r {
                Ok(s) => spec_ids_unique(planets@) && s.spec_planets() == planets@,
                Err(e) => !spec_ids_unique(planets@) && e == SimError::DuplicateId,
            },
    {
        let n = planets.len();
        let mut i: usize = 0;
        while i < n
            invariant
                i <= n,
                n == planets@.len(),
                forall|x: int, y: int|
                    0 <= x < y < n && x < i ==> (#[trigger] planets@[x].id)@ != (
                    #[trigger] planets@[y].id)@,
            decreases n - i,
        {
            let mut j: usize = i + 1;
            while j < n
                invariant
                    i < j <= n,
                    i < n,
                    n == planets@.len(),
                    forall|y: int|
                        i < y < j ==> planets@[i as int].id@ != (#[trigger] planets@[y].id)@,
                decreases n - j,
            {
                if str_eq(planets[i].id.as_str(), planets[j].id.as_str()) {
                    proof {
                        assert(spec_ids_unique(planets@) ==> planets@[i as int].id@
                            != planets@[j as int].id@);
                    }
                    return Err(SimError::DuplicateId);
                }
                j += 1;
            }
            i += 1;
        }
        Ok(System { planets })
    }

    /// The net force applied on each body at the current instant, keyed by
    /// body identifier.  The table starts with a zero-force entry per body;
    /// then, for every candidate pair, selected once by identifier order,
    /// the computed force is accumulated for the first body and its scaling
    /// by -1.0 for the second.
    pub fn build_force_dict(&self) -> (r: AssocVec<Force>)
        ensures
            r@ == spec_force_table(self.spec_planets()),
    {
        let mut force_dict: AssocVec<Force> = AssocVec::new();
        let n = self.planets.len();
        let mut s: usize = 0;
        proof {
            assert(self.planets@.take(0) =~= Seq::<Planet>::empty());
        }
        while s < n
            invariant
                s <= n,
                n == self.planets@.len(),
                force_dict@ == spec_zero_table(self.planets@.take(s as int)),
            decreases n - s,
        {
            let planet = &self.planets[s];
            force_dict.insert(planet.id.clone(), Force(Scalar(POS_ZERO), Scalar(POS_ZERO)));
            proof {
                let post = self.planets@.take(s as int + 1);
                assert(post.drop_last() =~= self.planets@.take(s as int));
                assert(post.last() == self.planets@[s as int]);
            }
            s += 1;
        }
        proof {
            assert(self.planets@.take(n as int) =~= self.planets@);
        }
        let mut i: usize = 0;
        while i < n
            invariant
                i <= n,
                n == self.planets@.len(),
                force_dict@ == spec_table_outer(
                    spec_zero_table(self.planets@),
                    self.planets@,
                    i as int,
                ),
            decreases n - i,
        {
            let mut j: usize = 0;
            while j < n
                invariant
                    j <= n,
                    i < n,
                    n == self.planets@.len(),
                    force_dict@ == spec_table_inner(
                        spec_table_outer(
                            spec_zero_table(self.planets@),
                            self.planets@,
                            i as int,
                        ),
                        self.planets@,
                        i as int,
                        j as int,
                    ),
                decreases n - j,
            {
                let planet_1 = &self.planets[i];
                let planet_2 = &self.planets[j];
                if str_lt(planet_1.id.as_str(), planet_2.id.as_str()) {
                    let force_on_planet_1 = planet_1.calculate_gravitational_force(planet_2);
                    let force_on_planet_2 = force_on_planet_1.mul(Scalar(NEG_ONE_BITS));
                    accumulate_force(&mut force_dict, &planet_1.id, &force_on_planet_1);
                    accumulate_force(&mut force_dict, &planet_2.id, &force_on_planet_2);
                }
                j += 1;
            }
            i += 1;
        }
        force_dict
    }

    /// One integration step: every body advances under the net force looked
    /// up in the table of the start-of-step states.
    fn step_planets(&mut self, time_step: Scalar)
        requires
            spec_ids_unique(old(self).spec_planets()),
        ensures
            final(self).spec_planets() == spec_step(old(self).spec_planets(), time_step),
    {
        let mut force_dict = self.build_force_dict();
        let ghost start = self.planets@;
        let ghost full = spec_force_table(start);
        let n = self.planets.len();
        let mut updated: Vec<Planet> = Vec::new();
        let mut idx: usize = 0;
        proof {
            assert(start.skip(0) =~= start);
        }
        while idx < n
            invariant
                idx <= n,
                n == start.len(),
                full == spec_force_table(start),
                spec_ids_unique(start),
                self.planets@ == start.skip(idx as int),
                updated@.len() == idx,
                forall|m: int|
                    0 <= m < idx ==> updated@[m] == spec_step_planet(start, m, time_step),
                forall|m: int|
                    idx <= m < n ==> spec_lookup(force_dict@, (#[trigger] start[m].id)@)
                        == spec_lookup(full, start[m].id@),
            decreases n - idx,
        {
            let mut planet = self.planets.remove(0);
            proof {
                assert(start.skip(idx as int)[0] == start[idx as int]);
                assert(start.skip(idx as int).remove(0) =~= start.skip(idx as int + 1));
                assert(planet == start[idx as int]);
            }
            let ghost pre = force_dict@;
            let ghost pid = start[idx as int].id@;
            let force_opt = force_dict.remove(planet.id.as_str());
            proof {
                assert(planet.id@ == pid);
                assert(force_opt == spec_remove_entry(pre, pid).1);
                assert(spec_remove_entry(pre, pid).1 == spec_lookup(pre, pid));
                assert(spec_lookup(pre, pid) == spec_lookup(full, pid));
            }
            let ghost before_apply = planet;
            match force_opt {
                Some(force) => {
                    planet.apply_force(&force, time_step);
                },
                None => {},
            }
            updated.push(planet);
            proof {
                match spec_lookup(full, pid) {
                    Some(f) => {
                        assert(planet == spec_apply_force(before_apply, f, time_step));
                    },
                    None => {
                        assert(planet == before_apply);
                    },
                }
                assert(planet == spec_step_planet(start, idx as int, time_step));
                assert(updated@[idx as int] == spec_step_planet(start, idx as int, time_step));
                assert forall|m: int|
                    idx + 1 <= m < n implies spec_lookup(
                    force_dict@,
                    (#[trigger] start[m].id)@,
                ) == spec_lookup(full, start[m].id@) by {
                    assert(start[idx as int].id@ != start[m].id@);
                    lemma_remove_preserves_lookup(pre, start[idx as int].id@, start[m].id@);
                }
            }
            idx += 1;
        }
        self.planets = updated;
        proof {
            assert(self.planets@ =~= spec_step(start, time_step));
        }
    }

    /// The snapshot map of the given bodies: one position per identifier,
    /// in body order.
    pub fn create_position_map(&self, planet_vec: &Vec<Planet>) -> (r: AssocVec<Position>)
        ensures
            r@ == spec_position_map(planet_vec@),
    {
        let mut positions: AssocVec<Position> = AssocVec::new();
        let n = planet_vec.len();
        let mut i: usize = 0;
        proof {
            assert(planet_vec@.take(0) =~= Seq::<Planet>::empty());
        }
        while i < n
            invariant
                i <= n,
                n == planet_vec@.len(),
                positions@ == spec_position_map(planet_vec@.take(i as int)),
            decreases n - i,
        {
            let planet = &planet_vec[i];
            positions.insert(planet.id.clone(), planet.get_position_clone());
            proof {
                let post = planet_vec@.take(i as int + 1);
                assert(post.drop_last() =~= planet_vec@.take(i as int));
                assert(post.last() == planet_vec@[i as int]);
            }
            i += 1;
        }
        proof {
            assert(planet_vec@.take(n as int) =~= planet_vec@);
        }
        positions
    }

    /// Runs the simulation: records the pre-simulation snapshot at time
    /// zero, then, while the elapsed time is below `total_time`, advances
    /// every body by `time_step` and records a snapshot at the new elapsed
    /// time.  The k-th snapshot carries the k-fold iterated step of the
    /// initial states and the k-fold accumulated elapsed time; the run ends
    /// with the first elapsed time not below `total_time`.  The loop counts
    /// its steps and stops at the largest count a snapshot vector can hold;
    /// no feasible run reaches that bound, it only keeps the loop finite
    /// when rounding makes the elapsed time stagnate below the total.
    pub fn simulate_movement(&mut self, total_time: Scalar, time_step: Scalar) -> (r: Vec<
        TimePosition,
    >)
        requires
            spec_ids_unique(old(self).spec_planets()),
        ensures
            r@.len() >= 1,
            r@[0].time == Scalar(POS_ZERO),
            r@[0].positions@ == spec_position_map(old(self).spec_planets()),
            final(self).spec_planets() == spec_states(
                old(self).spec_planets(),
                time_step,
                (r@.len() - 1) as nat,
            ),
            forall|k: int|
                0 <= k < r@.len() ==> (#[trigger] r@[k].time) == spec_elapsed(time_step, k as nat)
                    && r@[k].positions@ == spec_position_map(
                    spec_states(old(self).spec_planets(), time_step, k as nat),
                ),
            forall|k: int|
                0 <= k < r@.len() - 1 ==> lt_bits(
                    (#[trigger] spec_elapsed(time_step, k as nat)).0,
                    total_time.0,
                ),
            !lt_bits(spec_elapsed(time_step, (r@.len() - 1) as nat).0, total_time.0) || r@.len()
                == usize::MAX,
    {
        let ghost orig = self.spec_planets();
        let mut time_elapsed = Scalar(POS_ZERO);
        let mut positions: Vec<TimePosition> = Vec::new();
        let initial_map = self.create_position_map(&self.planets);
        positions.push(TimePosition::new(time_elapsed, initial_map));
        let mut steps: usize = 0;
        while steps < usize::MAX - 1 && scal_lt(time_elapsed, total_time)
            invariant
                spec_ids_unique(orig),
                steps <= usize::MAX - 1,
                self.spec_planets() == spec_states(orig, time_step, steps as nat),
                time_elapsed == spec_elapsed(time_step, steps as nat),
                positions@.len() == steps + 1,
                forall|m: int|
                    0 <= m <= steps ==> (#[trigger] positions@[m].time) == spec_elapsed(
                        time_step,
                        m as nat,
                    ) && positions@[m].positions@ == spec_position_map(
                        spec_states(orig, time_step, m as nat),
                    ),
                forall|m: int|
                    0 <= m < steps ==> lt_bits(
                        (#[trigger] spec_elapsed(time_step, m as nat)).0,
                        total_time.0,
                    ),
            decreases usize::MAX - steps,
        {
            proof {
                lemma_states_unique(orig, time_step, steps as nat);
            }
            self.step_planets(time_step);
            time_elapsed = scal_add(time_elapsed, time_step);
            let snap_map = self.create_position_map(&self.planets);
            positions.push(TimePosition::new(time_elapsed, snap_map));
            steps += 1;
        }
        proof {
            assert(positions@[0].time == spec_elapsed(time_step, 0));
            assert(spec_states(orig, time_step, 0) == orig);
            assert(positions@[0].positions@ == spec_position_map(orig));
        }
        positions
    }
}

/// The engine's entry point for an already-parsed configuration: takes
/// the body list and the two timing parameters, builds the system and
/// runs the whole simulation.  It succeeds exactly when the identifiers
/// are pairwise distinct, and performs no I/O.
pub fn simulate_configuration(
    planets: Vec<Planet>,
    total_time: Scalar,
    time_step: Scalar,
) -> (r: Result<Vec<TimePosition>, SimError>)
    ensures
        match r {
            Ok(snaps) => spec_ids_unique(planets@) && snaps@.len() >= 1 && snaps@[0].time
                == Scalar(POS_ZERO) && snaps@[0].positions@ == spec_position_map(planets@)
                && (forall|k: int|
                0 <= k < snaps@.len() ==> (#[trigger] snaps@[k].time) == spec_elapsed(
                    time_step,
                    k as nat,
                ) && snaps@[k].positions@ == spec_position_map(
                    spec_states(planets@, time_step, k as nat),
                )) && (forall|k: int|
                0 <= k < snaps@.len() - 1 ==> lt_bits(
                    (#[trigger] spec_elapsed(time_step, k as nat)).0,
                    total_time.0,
                )) && (!lt_bits(
                spec_elapsed(time_step, (snaps@.len() - 1) as nat).0,
                total_time.0,
            ) || snaps@.len() == usize::MAX),
            Err(e) => !spec_ids_unique(planets@) && e == SimError::DuplicateId,
        },
{
    let mut system = match System::new(planets) {
        Ok(s) => s,
        Err(e) => {
            return Err(e);
        },
    };
    Ok(system.simulate_movement(total_time, time_step))
}

} // verus!
