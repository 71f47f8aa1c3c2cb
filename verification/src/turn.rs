//! The turn scheduler: actors save up energy at their own speed, and whoever
//! reaches the action threshold acts.

use vstd::prelude::*;
use crate::components::{Energy, Entity, Speed, ACTION_THRESHOLD};

verus! {

/// One actor as the scheduler sees it. An actor that is not taking a turn is waiting.
#[derive(Clone, Copy, Debug, PartialEq, Eq, Structural)]
pub struct TurnActor {
    pub entity: Entity,
    pub energy: Energy,
    pub speed: Speed,
    pub taking_turn: bool,
}

/// Why the scheduler refused a roster.
#[derive(Clone, Copy, Debug, PartialEq, Eq, Structural)]
pub enum TurnError {
    /// A waiting actor has a speed of zero or less and would never act.
    InvalidSpeed,
    /// The energy that a waiting actor would reach does not fit in an `i32`.
    EnergyOverflow,
}

/// Whether some actor is taking a turn.
pub open spec fn any_acting(actors: Seq<TurnActor>) -> bool {
    exists|i: int| 0 <= i < actors.len() && (#[trigger] actors[i]).taking_turn
}

/// Whether some actor is waiting.
pub open spec fn any_waiting(actors: Seq<TurnActor>) -> bool {
    exists|i: int| 0 <= i < actors.len() && !(#[trigger] actors[i]).taking_turn
}

/// Whether some waiting actor has a speed with which it would never act.
pub open spec fn any_stalled(actors: Seq<TurnActor>) -> bool {
    exists|i: int|
        0 <= i < actors.len() && !(#[trigger] actors[i]).taking_turn && !actors[i].speed.is_valid()
}

/// Whether `passes` passes bring `energy` to the threshold at `speed`.
pub open spec fn reaches_threshold(energy: int, speed: int, passes: int) -> bool {
    energy + passes * speed >= ACTION_THRESHOLD
}

/// The number of passes after which an actor with `energy` and a positive
/// `speed` reaches the threshold: at least one, since a pass always runs
/// before anyone is looked at, and else `(threshold - energy) / speed`, rounded up.
pub open spec fn passes_to_act(energy: int, speed: int) -> int {
    if energy + speed >= ACTION_THRESHOLD {
        1
    } else {
        (ACTION_THRESHOLD - energy + speed - 1) / speed
    }
}

/// The number of passes that one scheduling runs: as many as the first
/// waiting actor to reach the threshold needs. Zero where nobody waits.
pub open spec fn pass_count(actors: Seq<TurnActor>) -> int
    decreases actors.len(),
{
    if actors.len() == 0 {
        0
    } else {
        let rest = pass_count(actors.drop_last());
        let last = actors.last();
        if last.taking_turn {
            rest
        } else {
            let own = passes_to_act(last.energy.0 as int, last.speed.0 as int);
            if rest == 0 || own < rest {
                own
            } else {
                rest
            }
        }
    }
}

/// The energy of a waiting `actor` after `passes` passes.
pub open spec fn energy_after(actor: TurnActor, passes: int) -> int {
    actor.energy.0 + passes * actor.speed.0
}

/// Whether the energy that some waiting actor would have after `passes`
/// passes is beyond an `i32`.
pub open spec fn any_overflow(actors: Seq<TurnActor>, passes: int) -> bool {
    exists|i: int|
        0 <= i < actors.len() && !(#[trigger] actors[i]).taking_turn && energy_after(actors[i], passes)
            > i32::MAX
}

/// An actor after `passes` scheduling passes: a waiting actor has gained its
/// speed that many times, and takes a turn if that brought it to the threshold.
pub open spec fn after_passes(actor: TurnActor, passes: int) -> TurnActor {
    if actor.taking_turn {
        actor
    } else {
        TurnActor {
            energy: Energy(energy_after(actor, passes) as i32),
            taking_turn: energy_after(actor, passes) >= ACTION_THRESHOLD,
            ..actor
        }
    }
}

/// The roster after one scheduling. While somebody is still taking a turn
/// nothing happens; else every waiting actor goes through `pass_count` passes.
pub open spec fn scheduled(actors: Seq<TurnActor>) -> Seq<TurnActor> {
    if any_acting(actors) {
        actors
    } else {
        Seq::new(actors.len(), |i: int| after_passes(actors[i], pass_count(actors)))
    }
}

/// An actor at the end of a turn: it goes back to waiting unless it still has
/// energy for another turn.
pub open spec fn after_turn(actor: TurnActor) -> TurnActor {
    TurnActor { taking_turn: actor.taking_turn && actor.energy.0 >= ACTION_THRESHOLD, ..actor }
}

/// The roster after the bookkeeping that ends a turn.
pub open spec fn rested(actors: Seq<TurnActor>) -> Seq<TurnActor> {
    Seq::new(actors.len(), |i: int| after_turn(actors[i]))
}

/// `passes_to_act` is the least number of passes, from one up, that brings
/// the energy to the threshold.
pub proof fn lemma_passes_to_act_is_least(energy: int, speed: int)
    requires
        speed > 0,
    ensures
        passes_to_act(energy, speed) >= 1,
        reaches_threshold(energy, speed, passes_to_act(energy, speed)),
        forall|k: int|
            1 <= k < passes_to_act(energy, speed) ==> !#[trigger] reaches_threshold(energy, speed, k),
{
    let p = passes_to_act(energy, speed);
    if energy + speed >= ACTION_THRESHOLD {
        assert(p * speed == speed) by (nonlinear_arith)
            requires
                p == 1,
        ;
    } else {
        let n = ACTION_THRESHOLD - energy + speed - 1;
        assert(p * speed <= n < p * speed + speed) by (nonlinear_arith)
            requires
                p == n / speed,
                speed > 0,
        ;
        assert forall|k: int| 1 <= k < p implies !#[trigger] reaches_threshold(energy, speed, k) by {
            assert(k * speed <= (p - 1) * speed) by (nonlinear_arith)
                requires
                    k <= p - 1,
                    speed > 0,
            ;
            assert((p - 1) * speed == p * speed - speed) by (nonlinear_arith);
        }
        assert(p >= 1) by (nonlinear_arith)
            requires
                n < p * speed + speed,
                n >= speed,
                speed > 0,
        ;
    }
}

/// Where somebody waits and every waiting actor has a positive speed,
/// `pass_count` is the least number of passes, from one up, after which a
/// waiting actor has reached the threshold.
pub proof fn lemma_pass_count_is_least(actors: Seq<TurnActor>)
    requires
        !any_stalled(actors),
    ensures
        any_waiting(actors) <==> pass_count(actors) >= 1,
        !any_waiting(actors) ==> pass_count(actors) == 0,
        any_waiting(actors) ==> exists|i: int|
            0 <= i < actors.len() && !(#[trigger] actors[i]).taking_turn && energy_after(
                actors[i],
                pass_count(actors),
            ) >= ACTION_THRESHOLD,
        forall|i: int, k: int|
            0 <= i < actors.len() && !(#[trigger] actors[i]).taking_turn && 1 <= k < pass_count(actors)
                ==> #[trigger] energy_after(actors[i], k) < ACTION_THRESHOLD,
        forall|i: int|
            0 <= i < actors.len() && !(#[trigger] actors[i]).taking_turn ==> pass_count(actors)
                <= passes_to_act(actors[i].energy.0 as int, actors[i].speed.0 as int),
    decreases actors.len(),
{
    if actors.len() > 0 {
        let rest = actors.drop_last();
        let last = actors.last();
        assert forall|i: int| 0 <= i < rest.len() implies rest[i] == actors[i] by {}
        assert(!any_stalled(rest)) by {
            if any_stalled(rest) {
                let i = choose|i: int|
                    0 <= i < rest.len() && !(#[trigger] rest[i]).taking_turn && !rest[i].speed.is_valid();
                assert(!actors[i].taking_turn && !actors[i].speed.is_valid());
            }
        }
        lemma_pass_count_is_least(rest);
        if any_waiting(rest) {
            let w = choose|i: int| 0 <= i < rest.len() && !(#[trigger] rest[i]).taking_turn;
            assert(!actors[w].taking_turn);
        }
        if !last.taking_turn {
            assert(!actors[actors.len() - 1].taking_turn);
            assert(last.speed.is_valid());
            lemma_passes_to_act_is_least(last.energy.0 as int, last.speed.0 as int);
        }
        let k = pass_count(actors);
        if any_waiting(actors) {
            let w = choose|i: int| 0 <= i < actors.len() && !(#[trigger] actors[i]).taking_turn;
            if w < rest.len() {
                assert(!rest[w].taking_turn);
            }
            if !last.taking_turn && k == passes_to_act(last.energy.0 as int, last.speed.0 as int) {
                assert(energy_after(actors[actors.len() - 1], k) >= ACTION_THRESHOLD);
            } else {
                let c = choose|i: int|
                    0 <= i < rest.len() && !(#[trigger] rest[i]).taking_turn && energy_after(
                        rest[i],
                        pass_count(rest),
                    ) >= ACTION_THRESHOLD;
                assert(!actors[c].taking_turn && energy_after(actors[c], k) >= ACTION_THRESHOLD);
            }
        }
        assert forall|i: int, j: int|
            0 <= i < actors.len() && !(#[trigger] actors[i]).taking_turn && 1 <= j < k implies #[trigger] energy_after(
            actors[i],
            j,
        ) < ACTION_THRESHOLD by {
            if i < rest.len() {
                assert(!rest[i].taking_turn);
                assert(any_waiting(rest));
                assert(energy_after(rest[i], j) < ACTION_THRESHOLD);
            } else {
                assert(!reaches_threshold(last.energy.0 as int, last.speed.0 as int, j));
            }
        }
        assert forall|i: int| 0 <= i < actors.len() && !(#[trigger] actors[i]).taking_turn implies k
            <= passes_to_act(actors[i].energy.0 as int, actors[i].speed.0 as int) by {
            if i < rest.len() {
                assert(!rest[i].taking_turn);
            }
        }
    }
}

fn passes_for(energy: i32, speed: i32) -> (passes: u32)
    requires
        speed > 0,
    ensures
        passes == passes_to_act(energy as int, speed as int),
        1 <= passes <= 0x8000_0064,
{
    if energy as i64 + speed as i64 >= ACTION_THRESHOLD as i64 {
        1
    } else {
        let short: i64 = ACTION_THRESHOLD as i64 - energy as i64 - 1;
        let n: i64 = short + speed as i64;
        let p: i64 = n / speed as i64;
        assert(p * speed <= n < p * speed + speed) by (nonlinear_arith)
            requires
                p == (n as int) / (speed as int),
                speed > 0,
        ;
        assert(1 <= p <= short + 1) by (nonlinear_arith)
            requires
                p * speed <= short + speed,
                short + speed < p * speed + speed,
                short >= speed,
                speed > 0,
        ;
        p as u32
    }
}

/// Starts the cycle's turns. While somebody is still taking a turn nothing
/// happens. Otherwise every waiting actor gains its speed in energy, pass
/// after pass, until at least one actor has reached the threshold; all who
/// reached it in that last pass take a turn together, and are served in the
/// order of the roster. Returns the number of passes. A waiting actor with a speed of zero or less, or an energy that
/// would outgrow an `i32`, is an error and leaves the roster as it was.
pub fn turn_begin(actors: &mut Vec<TurnActor>) -> (outcome: Result<u32, TurnError>)
    ensures
        match outcome {
            Ok(passes) => {
                &&& final(actors)@ == scheduled(old(actors)@)
                &&& any_acting(old(actors)@) ==> passes == 0
                &&& !any_acting(old(actors)@) ==> {
                    &&& passes == pass_count(old(actors)@)
                    &&& !any_stalled(old(actors)@)
                    &&& !any_overflow(old(actors)@, pass_count(old(actors)@))
                }
            },
            Err(TurnError::InvalidSpeed) => {
                &&& !any_acting(old(actors)@)
                &&& any_stalled(old(actors)@)
                &&& final(actors)@ == old(actors)@
            },
            Err(TurnError::EnergyOverflow) => {
                &&& !any_acting(old(actors)@)
                &&& !any_stalled(old(actors)@)
                &&& any_overflow(old(actors)@, pass_count(old(actors)@))
                &&& final(actors)@ == old(actors)@
            },
        },
{
    let n = actors.len();
    let mut i: usize = 0;
    while i < n
        invariant
            i <= n,
            n == actors.len(),
            actors@ == old(actors)@,
            forall|j: int| 0 <= j < i ==> !(#[trigger] actors[j]).taking_turn,
        decreases n - i,
    {
        if actors[i].taking_turn {
            return Ok(0);
        }
        i += 1;
    }
    assert(!any_acting(actors@));
    let mut passes: u32 = 0;
    i = 0;
    while i < n
        invariant
            i <= n,
            n == actors.len(),
            actors@ == old(actors)@,
            forall|j: int| 0 <= j < n ==> !(#[trigger] actors[j]).taking_turn,
            forall|j: int| 0 <= j < i ==> (#[trigger] actors[j]).speed.is_valid(),
            passes == pass_count(actors@.take(i as int)),
            passes <= 0x8000_0064,
        decreases n - i,
    {
        let actor = actors[i];
        if actor.speed.0 <= 0 {
            assert(!actors[i as int].taking_turn && !actors[i as int].speed.is_valid());
            return Err(TurnError::InvalidSpeed);
        }
        let own = passes_for(actor.energy.0, actor.speed.0);
        proof {
            assert(actors@.take(i + 1).drop_last() =~= actors@.take(i as int));
            assert(actors@.take(i + 1).last() == actor);
        }
        if passes == 0 || own < passes {
            passes = own;
        }
        i += 1;
    }
    assert(actors@.take(n as int) =~= actors@);
    assert(!any_stalled(actors@));
    i = 0;
    while i < n
        invariant
            i <= n,
            n == actors.len(),
            actors@ == old(actors)@,
            passes <= 0x8000_0064,
            passes == pass_count(actors@),
            !any_acting(actors@),
            !any_stalled(actors@),
            forall|j: int| 0 <= j < n ==> !(#[trigger] actors[j]).taking_turn,
            forall|j: int| 0 <= j < n ==> (#[trigger] actors[j]).speed.is_valid(),
            forall|j: int| 0 <= j < i ==> energy_after(#[trigger] actors[j], passes as int) <= i32::MAX,
        decreases n - i,
    {
        let actor = actors[i];
        assert(0 <= passes * actor.speed.0 <= 0x8000_0064 * 0x8000_0000) by (nonlinear_arith)
            requires
                0 <= passes <= 0x8000_0064,
                0 < actor.speed.0 <= 0x8000_0000,
        ;
        let gain: i128 = passes as i128 * actor.speed.0 as i128;
        if actor.energy.0 as i128 + gain > i32::MAX as i128 {
            assert(!actors[i as int].taking_turn && energy_after(actors[i as int], passes as int) > i32::MAX);
            return Err(TurnError::EnergyOverflow);
        }
        i += 1;
    }
    assert(!any_overflow(actors@, passes as int));
    i = 0;
    while i < n
        invariant
            i <= n,
            n == actors.len(),
            n == old(actors)@.len(),
            passes <= 0x8000_0064,
            passes == pass_count(old(actors)@),
            !any_acting(old(actors)@),
            !any_stalled(old(actors)@),
            !any_overflow(old(actors)@, passes as int),
            forall|j: int| 0 <= j < n ==> !(#[trigger] old(actors)@[j]).taking_turn,
            forall|j: int| 0 <= j < n ==> (#[trigger] old(actors)@[j]).speed.is_valid(),
            forall|j: int| 0 <= j < n ==> energy_after(#[trigger] old(actors)@[j], passes as int) <= i32::MAX,
            forall|j: int| 0 <= j < i ==> #[trigger] actors[j] == after_passes(old(actors)@[j], passes as int),
            forall|j: int| i <= j < n ==> #[trigger] actors[j] == old(actors)@[j],
        decreases n - i,
    {
        let actor = actors[i];
        assert(actor == old(actors)@[i as int]);
        assert(0 <= passes * actor.speed.0 <= 0x8000_0064 * 0x8000_0000) by (nonlinear_arith)
            requires
                0 <= passes <= 0x8000_0064,
                0 < actor.speed.0 <= 0x8000_0000,
        ;
        let gain: i128 = passes as i128 * actor.speed.0 as i128;
        let energy: i32 = (actor.energy.0 as i128 + gain) as i32;
        actors[i] = TurnActor {
            entity: actor.entity,
            energy: Energy(energy),
            speed: actor.speed,
            taking_turn: energy >= ACTION_THRESHOLD,
        };
        i += 1;
    }
    assert(actors@ =~= scheduled(old(actors)@));
    Ok(passes)
}

/// Ends the cycle's turns: an actor that took a turn goes back to waiting
/// once its energy is below the threshold, and keeps the turn while it is not.
pub fn turn_end(actors: &mut Vec<TurnActor>)
    ensures
        final(actors)@ == rested(old(actors)@),
{
    let n = actors.len();
    let mut i: usize = 0;
    while i < n
        invariant
            i <= n,
            n == actors.len(),
            n == old(actors)@.len(),
            forall|j: int| 0 <= j < i ==> #[trigger] actors[j] == after_turn(old(actors)@[j]),
            forall|j: int| i <= j < n ==> #[trigger] actors[j] == old(actors)@[j],
        decreases n - i,
    {
        let actor = actors[i];
        if actor.taking_turn && actor.energy.0 < ACTION_THRESHOLD {
            actors[i] = TurnActor { taking_turn: false, ..actor };
        }
        i += 1;
    }
    assert(actors@ =~= rested(old(actors)@));
}

/// The number of passes that an actor without energy needs for one turn.
pub open spec fn turn_length(speed: int) -> int {
    passes_to_act(0, speed)
}

/// An actor once its turn is resolved: acting has cost it all its energy.
pub open spec fn turn_taken(actor: TurnActor) -> TurnActor {
    if actor.taking_turn {
        TurnActor { energy: Energy(0), ..actor }
    } else {
        actor
    }
}

/// The roster after one whole cycle: a scheduling, the turn of everyone who
/// may act, and the bookkeeping that ends the turns.
pub open spec fn cycle(actors: Seq<TurnActor>) -> Seq<TurnActor> {
    rested(Seq::new(actors.len(), |i: int| turn_taken(scheduled(actors)[i])))
}

/// The roster after `n` cycles.
pub open spec fn after_cycles(actors: Seq<TurnActor>, n: nat) -> Seq<TurnActor>
    decreases n,
{
    if n == 0 {
        actors
    } else {
        cycle(after_cycles(actors, (n - 1) as nat))
    }
}

/// The number of passes that the first `n` cycles run.
pub open spec fn passes_in(actors: Seq<TurnActor>, n: nat) -> int
    decreases n,
{
    if n == 0 {
        0
    } else {
        passes_in(actors, (n - 1) as nat) + pass_count(after_cycles(actors, (n - 1) as nat))
    }
}

/// The number of turns that actor `i` takes in the first `n` cycles.
pub open spec fn turns_in(actors: Seq<TurnActor>, n: nat, i: int) -> int
    decreases n,
{
    if n == 0 {
        0
    } else {
        turns_in(actors, (n - 1) as nat, i) + (if scheduled(after_cycles(actors, (n - 1) as nat))[i].taking_turn {
            1int
        } else {
            0int
        })
    }
}

/// A roster at the start of play: everybody waits without energy, at a
/// positive speed that leaves room for the threshold in an `i32`.
pub open spec fn at_rest(actors: Seq<TurnActor>) -> bool {
    forall|i: int|
        0 <= i < actors.len() ==> {
            &&& !(#[trigger] actors[i]).taking_turn
            &&& actors[i].energy.0 == 0
            &&& 0 < actors[i].speed.0 <= i32::MAX - ACTION_THRESHOLD
        }
}

proof fn lemma_turn_length(speed: int)
    requires
        speed > 0,
    ensures
        turn_length(speed) >= 1,
        turn_length(speed) * speed >= ACTION_THRESHOLD,
        (turn_length(speed) - 1) * speed < ACTION_THRESHOLD,
        forall|m: int| m >= turn_length(speed) ==> #[trigger] (m * speed) >= ACTION_THRESHOLD,
        forall|m: int| 0 <= m < turn_length(speed) ==> #[trigger] (m * speed) < ACTION_THRESHOLD,
{
    let len = turn_length(speed);
    lemma_passes_to_act_is_least(0, speed);
    assert(reaches_threshold(0, speed, len));
    if len > 1 {
        assert(!reaches_threshold(0, speed, len - 1));
    } else {
        assert((len - 1) * speed == 0) by (nonlinear_arith)
            requires
                len == 1,
        ;
    }
    assert forall|m: int| m >= len implies #[trigger] (m * speed) >= ACTION_THRESHOLD by {
        assert(m * speed >= len * speed) by (nonlinear_arith)
            requires
                m >= len,
                speed > 0,
        ;
    }
    assert forall|m: int| 0 <= m < len implies #[trigger] (m * speed) < ACTION_THRESHOLD by {
        assert(m * speed <= (len - 1) * speed) by (nonlinear_arith)
            requires
                m <= len - 1,
                speed > 0,
        ;
    }
}

/// An actor that has saved up `done` passes of a turn needs the rest of the
/// turn's passes to act.
proof fn lemma_passes_left(speed: int, done: int)
    requires
        speed > 0,
        0 <= done < turn_length(speed),
    ensures
        passes_to_act(done * speed, speed) == turn_length(speed) - done,
{
    let len = turn_length(speed);
    let p = passes_to_act(done * speed, speed);
    lemma_turn_length(speed);
    lemma_passes_to_act_is_least(done * speed, speed);
    assert(reaches_threshold(done * speed, speed, p));
    assert((done + p) * speed == done * speed + p * speed) by (nonlinear_arith);
    assert((done + (len - done)) * speed == done * speed + (len - done) * speed) by (nonlinear_arith);
    if p < len - done {
        assert(((done + p) * speed) < ACTION_THRESHOLD);
    }
    if len - done < p {
        assert(!reaches_threshold(done * speed, speed, len - done));
        assert((len * speed) >= ACTION_THRESHOLD);
    }
}

/// What holds of a roster that started at rest after any number of cycles:
/// everybody waits again, and the energy of each actor is its speed times the
/// passes it has saved up since its last turn.
spec fn in_step(actors: Seq<TurnActor>, n: nat) -> bool {
    let now = after_cycles(actors, n);
    &&& now.len() == actors.len()
    &&& actors.len() > 0 ==> passes_in(actors, n) >= n
    &&& forall|i: int|
        0 <= i < actors.len() ==> {
            let saved = passes_in(actors, n) - turns_in(actors, n, i) * turn_length(actors[i].speed.0 as int);
            &&& (#[trigger] now[i]).speed == actors[i].speed
            &&& now[i].entity == actors[i].entity
            &&& !now[i].taking_turn
            &&& turns_in(actors, n, i) >= 0
            &&& 0 <= saved < turn_length(actors[i].speed.0 as int)
            &&& now[i].energy.0 == saved * actors[i].speed.0
        }
}

proof fn lemma_in_step(actors: Seq<TurnActor>, n: nat)
    requires
        at_rest(actors),
    ensures
        in_step(actors, n),
    decreases n,
{
    if n == 0 {
        assert forall|i: int| 0 <= i < actors.len() implies 0 < turn_length(
            (#[trigger] actors[i]).speed.0 as int,
        ) by {
            lemma_turn_length(actors[i].speed.0 as int);
        }
        assert(in_step(actors, 0)) by {
            assert forall|i: int| 0 <= i < actors.len() implies {
                let saved = passes_in(actors, 0) - turns_in(actors, 0, i) * turn_length(actors[i].speed.0 as int);
                &&& 0 <= saved < turn_length((#[trigger] actors[i]).speed.0 as int)
                &&& actors[i].energy.0 == saved * actors[i].speed.0
            } by {
                let len = turn_length(actors[i].speed.0 as int);
                assert(0 * len == 0) by (nonlinear_arith);
                assert(0 * actors[i].speed.0 == 0) by (nonlinear_arith);
            }
        }
    } else {
        let m = (n - 1) as nat;
        lemma_in_step(actors, m);
        let before = after_cycles(actors, m);
        let passed = passes_in(actors, m);
        assert(!any_acting(before));
        assert(!any_stalled(before)) by {
            if any_stalled(before) {
                let i = choose|i: int|
                    0 <= i < before.len() && !(#[trigger] before[i]).taking_turn && !before[i].speed.is_valid();
                assert(actors[i].speed.0 > 0);
            }
        }
        lemma_pass_count_is_least(before);
        let k = pass_count(before);
        let begun = scheduled(before);
        let now = cycle(before);
        assert(now == after_cycles(actors, n));
        if actors.len() > 0 {
            assert(!before[0].taking_turn);
            assert(any_waiting(before));
        }
        assert forall|i: int| 0 <= i < actors.len() implies {
            let saved = passes_in(actors, n) - turns_in(actors, n, i) * turn_length(actors[i].speed.0 as int);
            &&& (#[trigger] now[i]).speed == actors[i].speed
            &&& now[i].entity == actors[i].entity
            &&& !now[i].taking_turn
            &&& turns_in(actors, n, i) >= 0
            &&& 0 <= saved < turn_length(actors[i].speed.0 as int)
            &&& now[i].energy.0 == saved * actors[i].speed.0
        } by {
            let speed = actors[i].speed.0 as int;
            let len = turn_length(speed);
            let turns = turns_in(actors, m, i);
            let saved = passed - turns * len;
            assert(!before[i].taking_turn);
            assert(before[i].speed == actors[i].speed);
            assert(before[i].energy.0 == saved * speed);
            lemma_turn_length(speed);
            lemma_passes_left(speed, saved);
            assert(k <= len - saved);
            assert(k >= 1);
            let total = saved + k;
            assert(energy_after(before[i], k) == total * speed) by (nonlinear_arith)
                requires
                    energy_after(before[i], k) == saved * speed + k * speed,
                    total == saved + k,
            ;
            assert(total * speed <= len * speed) by (nonlinear_arith)
                requires
                    total <= len,
                    speed > 0,
            ;
            assert(len * speed == (len - 1) * speed + speed) by (nonlinear_arith);
            assert(0 <= total * speed) by (nonlinear_arith)
                requires
                    total >= 0,
                    speed > 0,
            ;
            assert(begun[i] == after_passes(before[i], k));
            assert(begun[i].energy.0 == total * speed);
            if total == len {
                assert((total * speed) >= ACTION_THRESHOLD);
                assert(begun[i].taking_turn);
                assert((turns + 1) * len == turns * len + len) by (nonlinear_arith);
                assert(0 * speed == 0) by (nonlinear_arith);
            } else {
                assert((total * speed) < ACTION_THRESHOLD);
                assert(!begun[i].taking_turn);
            }
        }
    }
}

/// Turn order follows speed. In a roster that starts at rest, after any
/// number of cycles every actor has taken one turn for each `turn_length` of
/// its speed that fits into the passes run so far, no more and no fewer; and
/// every cycle runs at least one pass. So over the cycles the turns of two
/// actors stand to each other as their speeds do, up to the rounding in
/// `turn_length`, the more closely the longer play goes on.
pub proof fn lemma_turns_follow_speed(actors: Seq<TurnActor>, n: nat, i: int)
    requires
        at_rest(actors),
        0 <= i < actors.len(),
    ensures
        passes_in(actors, n) >= n,
        turns_in(actors, n, i) >= 0,
        turns_in(actors, n, i) * turn_length(actors[i].speed.0 as int) <= passes_in(actors, n),
        passes_in(actors, n) < (turns_in(actors, n, i) + 1) * turn_length(actors[i].speed.0 as int),
{
    lemma_in_step(actors, n);
    let now = after_cycles(actors, n);
    let len = turn_length(actors[i].speed.0 as int);
    let turns = turns_in(actors, n, i);
    assert(!now[i].taking_turn);
    assert((turns + 1) * len == turns * len + len) by (nonlinear_arith);
}

/// Of two actors in a roster that starts at rest, the one that is at least
/// as fast has, after any number of cycles, taken at least as many turns.
pub proof fn lemma_faster_actor_acts_no_less(actors: Seq<TurnActor>, n: nat, fast: int, slow: int)
    requires
        at_rest(actors),
        0 <= fast < actors.len(),
        0 <= slow < actors.len(),
        actors[fast].speed.0 >= actors[slow].speed.0,
    ensures
        turns_in(actors, n, fast) >= turns_in(actors, n, slow),
{
    let quick = actors[fast].speed.0 as int;
    let plain = actors[slow].speed.0 as int;
    lemma_turns_follow_speed(actors, n, fast);
    lemma_turns_follow_speed(actors, n, slow);
    lemma_turn_length(quick);
    lemma_turn_length(plain);
    let short = turn_length(quick);
    let long = turn_length(plain);
    assert(short <= long) by {
        if long < short {
            assert((long * quick) < ACTION_THRESHOLD);
            assert(long * quick >= long * plain) by (nonlinear_arith)
                requires
                    quick >= plain,
                    long >= 1,
            ;
        }
    }
    let a = turns_in(actors, n, fast);
    let b = turns_in(actors, n, slow);
    if a < b {
        assert((a + 1) * short <= b * long) by (nonlinear_arith)
            requires
                a + 1 <= b,
                1 <= short <= long,
                a >= 0,
        ;
    }
}

} // verus!
