//! Damage rolls, health, and the resolution of a cycle's attacks.

use vstd::prelude::*;
use vstd::std_specs::convert::TryIntoSpec;
use vstd::string::StringExecFns;
use bracket_random::prelude::RandomNumberGenerator;
use crate::components::Entity;
use crate::events::AttackEvent;
use crate::log::GameLog;
use crate::text::{decimal, decimal_string};

verus! {

/// The random source of `bracket-random`; nothing is known of its state.
#[verifier::external_type_specification]
#[verifier::external_body]
pub struct ExRandomNumberGenerator(RandomNumberGenerator);

/// `RandomNumberGenerator::roll_dice` adds up `n` draws, each between 1 and
/// `die_type`: for a positive `n` the total lies between `n` and `n * die_type`,
/// and without dice it is zero. It draws from the range `1..die_type + 1` and
/// sums in `i32`, so a die needs at least one side and the largest total has to fit.
pub assume_specification[ RandomNumberGenerator::roll_dice ](
    rng: &mut RandomNumberGenerator,
    n: i32,
    die_type: i32,
) -> (total: i32)
    requires
        n > 0 ==> 1 <= die_type < i32::MAX && n * die_type <= i32::MAX,
    ensures
        n <= 0 ==> total == 0,
        n > 0 ==> n <= total <= n * die_type,
;

/// The damage that a dice total gives once the flat modifier is applied: never below zero.
pub open spec fn damage_of(total: int, modifier: int) -> int {
    if total + modifier > 0 {
        total + modifier
    } else {
        0
    }
}

/// Why a dice descriptor was turned down.
#[derive(Clone, Copy, Debug, PartialEq, Eq, Structural)]
pub enum DiceError {
    /// A die needs at least one side.
    NoSides,
    /// The largest possible roll does not fit in an `i32`.
    TooLarge,
}

/// A damage roll: `count` dice of `sides` sides each, plus a flat `modifier`.
#[derive(Clone, Copy, Debug)]
pub struct Dice {
    count: i32,
    sides: i32,
    modifier: i32,
}

impl Dice {
    /// Number of dice rolled.
    pub closed spec fn count(self) -> int {
        self.count as int
    }

    /// Sides of each die.
    pub closed spec fn sides(self) -> int {
        self.sides as int
    }

    /// Flat amount added to the total.
    pub closed spec fn modifier(self) -> int {
        self.modifier as int
    }

    /// A descriptor that can be rolled: every die has a side, and with dice to
    /// roll the largest total, with the modifier, fits in an `i32`.
    pub open spec fn well_formed(count: int, sides: int, modifier: int) -> bool {
        &&& sides >= 1
        &&& count > 0 ==> sides < i32::MAX && count * sides <= i32::MAX && count * sides + modifier
            <= i32::MAX
    }

    #[verifier::type_invariant]
    spec fn inv(self) -> bool {
        Self::well_formed(self.count as int, self.sides as int, self.modifier as int)
    }

    /// The totals that the dice alone can show.
    pub open spec fn may_total(self, total: int) -> bool {
        if self.count() <= 0 {
            total == 0
        } else {
            self.count() <= total <= self.count() * self.sides()
        }
    }

    /// The damages that a roll of these dice can give.
    pub open spec fn may_deal(self, damage: int) -> bool {
        exists|total: int| #[trigger] self.may_total(total) && damage == damage_of(total, self.modifier())
    }

    /// Checks a descriptor and builds the dice.
    pub fn new(count: i32, sides: i32, modifier: i32) -> (made: Result<Dice, DiceError>)
        ensures
            match made {
                Ok(dice) => {
                    &&& Self::well_formed(count as int, sides as int, modifier as int)
                    &&& dice.count() == count
                    &&& dice.sides() == sides
                    &&& dice.modifier() == modifier
                },
                Err(DiceError::NoSides) => sides < 1,
                Err(DiceError::TooLarge) => sides >= 1 && !Self::well_formed(
                    count as int,
                    sides as int,
                    modifier as int,
                ),
            },
    {
        if sides < 1 {
            return Err(DiceError::NoSides);
        }
        if count > 0 {
            if sides == i32::MAX {
                return Err(DiceError::TooLarge);
            }
            assert(0 < count * sides <= 0x8000_0000 * 0x8000_0000) by (nonlinear_arith)
                requires
                    0 < count <= 0x8000_0000,
                    0 < sides <= 0x8000_0000,
            ;
            let top: i64 = count as i64 * sides as i64;
            if top > i32::MAX as i64 || top + modifier as i64 > i32::MAX as i64 {
                return Err(DiceError::TooLarge);
            }
        }
        Ok(Dice { count, sides, modifier })
    }

    /// The dice `count` d `sides` without a modifier, for a descriptor known
    /// to be well formed.
    pub fn plain(count: i32, sides: i32) -> (dice: Dice)
        requires
            Self::well_formed(count as int, sides as int, 0),
        ensures
            dice.count() == count,
            dice.sides() == sides,
            dice.modifier() == 0,
    {
        Dice { count, sides, modifier: 0 }
    }

    /// Number of dice rolled.
    pub fn dice_count(&self) -> (n: i32)
        ensures
            n == self.count(),
    {
        self.count
    }

    /// Sides of each die.
    pub fn die_sides(&self) -> (n: i32)
        ensures
            n == self.sides(),
    {
        self.sides
    }

    /// Flat amount added to the total.
    pub fn flat_modifier(&self) -> (n: i32)
        ensures
            n == self.modifier(),
    {
        self.modifier
    }

    /// The damage for a given total of the dice: the total plus the modifier, floored at zero.
    pub fn damage_for(&self, total: i32) -> (damage: i32)
        requires
            self.may_total(total as int),
        ensures
            damage == damage_of(total as int, self.modifier()),
    {
        proof {
            use_type_invariant(self);
        }
        let raw: i64 = total as i64 + self.modifier as i64;
        if raw > 0 {
            raw as i32
        } else {
            0
        }
    }

    /// Rolls the dice and returns the damage.
    pub fn roll(&self, rng: &mut RandomNumberGenerator) -> (damage: i32)
        ensures
            self.may_deal(damage as int),
            damage >= 0,
    {
        proof {
            use_type_invariant(self);
        }
        let total = rng.roll_dice(self.count, self.sides);
        assert(self.may_total(total as int));
        self.damage_for(total)
    }
}

/// Rolled damage is never negative, lies between what the lowest and the
/// highest total give, and is zero whenever even the highest total, `count * sides`,
/// plus the modifier does not exceed zero. This holds of dice with no negative count.
pub proof fn lemma_damage_bounds(dice: Dice, damage: int)
    requires
        Dice::well_formed(dice.count(), dice.sides(), dice.modifier()),
        dice.count() >= 0,
        dice.may_deal(damage),
    ensures
        damage >= 0,
        damage_of(dice.count(), dice.modifier()) <= damage <= damage_of(
            dice.count() * dice.sides(),
            dice.modifier(),
        ),
        dice.count() * dice.sides() + dice.modifier() <= 0 ==> damage == 0,
{
    let total = choose|total: int| #[trigger] dice.may_total(total) && damage == damage_of(total, dice.modifier());
    if dice.count() > 0 {
        assert(dice.count() <= dice.count() * dice.sides()) by (nonlinear_arith)
            requires
                dice.count() > 0,
                dice.sides() >= 1,
        ;
    } else {
        assert(dice.count() * dice.sides() == 0) by (nonlinear_arith)
            requires
                dice.count() == 0,
        ;
    }
}

/// The damage roll an entity attacks with.
#[derive(Clone, Copy, Debug)]
pub struct Attack {
    dice: Dice,
}

impl Attack {
    /// The dice behind this attack.
    pub closed spec fn spec_dice(&self) -> Dice {
        self.dice
    }

    /// An attack that rolls `dice`.
    pub fn new(dice: Dice) -> (attack: Self)
        ensures
            attack.spec_dice() == dice,
    {
        Self { dice }
    }

    /// The dice behind this attack.
    #[verifier::when_used_as_spec(spec_dice)]
    pub fn dice(&self) -> (dice: Dice)
        ensures
            dice == self.spec_dice(),
    {
        self.dice
    }
}

/// What a damage argument counts for: its value where it is a `u32`, zero otherwise.
pub open spec fn amount_or_zero<T: TryInto<u32>>(damage: T) -> int {
    match damage.try_into_spec() {
        Ok(d) => d as int,
        Err(_) => 0,
    }
}

/// Whether `amount` is what the damage argument `damage` counts for: what
/// `try_into` makes of it, and zero where that fails.
pub open spec fn is_amount_of<T: TryInto<u32>>(damage: T, amount: u32) -> bool {
    exists|made: Result<u32, <T as TryInto<u32>>::Error>| #[trigger]
        call_ensures(<T as TryInto<u32>>::try_into, (damage,), made) && amount == (match made {
            Ok(value) => value,
            Err(_) => 0u32,
        })
}

/// Hit points: what is left and what a full recovery gives.
#[derive(Clone, Copy, Debug, PartialEq, Eq, Structural)]
pub struct Health {
    pub current: u32,
    pub max: u32,
}

impl Health {
    /// The hit points left never exceed the maximum.
    pub open spec fn is_valid(self) -> bool {
        self.current <= self.max
    }

    /// This health after `damage` points of damage: hit points stop at zero.
    pub open spec fn damaged(self, damage: int) -> Health {
        Health {
            current: if damage >= self.current {
                0u32
            } else if damage <= 0 {
                self.current
            } else {
                (self.current - damage) as u32
            },
            max: self.max,
        }
    }

    /// This health after a heal of `amount`: hit points stop at the maximum.
    pub open spec fn healed(self, amount: int) -> Health {
        Health {
            current: if self.current + amount >= self.max {
                self.max
            } else {
                (self.current + amount) as u32
            },
            max: self.max,
        }
    }

    /// Full health of `amount` hit points.
    pub fn new(amount: u32) -> (health: Self)
        ensures
            health.current == amount,
            health.max == amount,
            health.is_valid(),
    {
        Self { current: amount, max: amount }
    }

    /// Takes `damage` hit points away, stopping at zero. A `damage` that is no
    /// `u32` (a negative one) takes nothing.
    pub fn take_damage<T: TryInto<u32>>(&mut self, damage: T)
        ensures
            final(self).max == old(self).max,
            final(self).current <= old(self).current,
            old(self).is_valid() ==> final(self).is_valid(),
            exists|amount: u32| #[trigger]
                is_amount_of(damage, amount) && *final(self) == old(self).damaged(amount as int),
            T::obeys_try_into_spec() ==> *final(self) == old(self).damaged(amount_or_zero(damage)),
            T::obeys_try_into_spec() ==> old(self).current - final(self).current == (if amount_or_zero(
                damage,
            ) <= old(self).current {
                amount_or_zero(damage)
            } else {
                old(self).current as int
            }),
    {
        let made = damage.try_into();
        assert(call_ensures(<T as TryInto<u32>>::try_into, (damage,), made));
        let amount: u32 = match made {
            Ok(d) => d,
            Err(_) => 0,
        };
        assert(is_amount_of(damage, amount));
        self.lose(amount);
    }

    /// Takes `damage` hit points away, stopping at zero.
    pub fn lose(&mut self, damage: u32)
        ensures
            *final(self) == old(self).damaged(damage as int),
            final(self).current <= old(self).current,
            old(self).current - final(self).current == (if damage <= old(self).current {
                damage
            } else {
                old(self).current
            }),
            old(self).is_valid() ==> final(self).is_valid(),
    {
        self.current = self.current.saturating_sub(damage);
    }

    /// Restores `amount` hit points, stopping at the maximum.
    pub fn heal(&mut self, amount: u32)
        ensures
            *final(self) == old(self).healed(amount as int),
            final(self).is_valid(),
    {
        if self.current >= self.max || amount >= self.max - self.current {
            self.current = self.max;
        } else {
            self.current = self.current + amount;
        }
    }

    /// Whether no hit points are left.
    pub fn is_dead(&self) -> (dead: bool)
        ensures
            dead == (self.current == 0),
    {
        self.current == 0
    }
}

/// The combat side of an actor.
#[derive(Clone, Copy, Debug)]
pub struct CombatStatsBundle {
    pub health: Health,
    pub attack: Attack,
}

/// An entity that can attack, as the combat phase sees it.
#[derive(Debug)]
pub struct Attacker {
    pub entity: Entity,
    pub name: String,
    pub attack: Attack,
}

/// An entity with hit points, as combat and the death sweep see it.
#[derive(Debug)]
pub struct Damageable {
    pub entity: Entity,
    pub name: Option<String>,
    pub health: Health,
}

/// The entities of a list of attackers, in order.
pub open spec fn attacker_ids(attackers: Seq<Attacker>) -> Seq<Entity> {
    attackers.map_values(|a: Attacker| a.entity)
}

/// The entities of a list of damageable entities, in order.
pub open spec fn damageable_ids(victims: Seq<Damageable>) -> Seq<Entity> {
    victims.map_values(|v: Damageable| v.entity)
}

/// The name that the log gives an entity: its own, or "Unknown".
pub open spec fn name_or_unknown(name: Option<String>) -> Seq<char> {
    match name {
        Some(n) => n@,
        None => "Unknown"@,
    }
}

/// The log line of one attack.
pub open spec fn attack_line(attacker: Seq<char>, victim: Seq<char>, damage: nat) -> Seq<char> {
    attacker + " attacks "@ + victim + " for "@ + decimal(damage) + " damage"@
}

/// The log line of one death.
pub open spec fn death_line(name: Seq<char>) -> Seq<char> {
    name + " died"@
}

/// Health and log after one attack that deals `damage`. An attack whose
/// attacker or target is not on the lists changes nothing; the first entry of
/// an entity stands for it.
pub open spec fn after_attack(
    victims: Seq<Damageable>,
    log: Seq<Seq<char>>,
    attackers: Seq<Attacker>,
    event: AttackEvent,
    damage: nat,
) -> (Seq<Damageable>, Seq<Seq<char>>) {
    match (
        attacker_ids(attackers).index_of_first(event.attacker),
        damageable_ids(victims).index_of_first(event.target),
    ) {
        (Some(a), Some(v)) => (
            victims.update(
                v,
                Damageable { health: victims[v].health.damaged(damage as int), ..victims[v] },
            ),
            log.push(attack_line(attackers[a].name@, name_or_unknown(victims[v].name), damage)),
        ),
        _ => (victims, log),
    }
}

/// Health and log after the attacks of `events`, resolved in order, where the
/// attack of `events[j]` deals `damages[j]`.
pub open spec fn after_attacks(
    victims: Seq<Damageable>,
    log: Seq<Seq<char>>,
    attackers: Seq<Attacker>,
    events: Seq<AttackEvent>,
    damages: Seq<nat>,
) -> (Seq<Damageable>, Seq<Seq<char>>)
    decreases events.len(),
{
    if events.len() == 0 || damages.len() != events.len() {
        (victims, log)
    } else {
        let before = after_attacks(victims, log, attackers, events.drop_last(), damages.drop_last());
        after_attack(before.0, before.1, attackers, events.last(), damages.last())
    }
}

/// Whether `damage` is a damage that the attack of `event` can deal: one that
/// the attacker's dice can give, where the attack takes place at all.
pub open spec fn is_possible_damage(
    victims: Seq<Damageable>,
    attackers: Seq<Attacker>,
    event: AttackEvent,
    damage: nat,
) -> bool {
    match (
        attacker_ids(attackers).index_of_first(event.attacker),
        damageable_ids(victims).index_of_first(event.target),
    ) {
        (Some(a), Some(v)) => attackers[a].attack.spec_dice().may_deal(damage as int),
        _ => damage == 0,
    }
}

/// The entities among `actors` that have no hit points left, in order.
pub open spec fn casualties(actors: Seq<Damageable>) -> Seq<Entity>
    decreases actors.len(),
{
    if actors.len() == 0 {
        Seq::empty()
    } else if actors.last().health.current == 0 {
        casualties(actors.drop_last()).push(actors.last().entity)
    } else {
        casualties(actors.drop_last())
    }
}

/// The log lines of the deaths among `actors`, in order.
pub open spec fn obituaries(actors: Seq<Damageable>) -> Seq<Seq<char>>
    decreases actors.len(),
{
    if actors.len() == 0 {
        Seq::empty()
    } else if actors.last().health.current == 0 {
        obituaries(actors.drop_last()).push(death_line(name_or_unknown(actors.last().name)))
    } else {
        obituaries(actors.drop_last())
    }
}

/// The first attacker on the list that is `entity`.
pub fn find_attacker(attackers: &Vec<Attacker>, entity: Entity) -> (found: Option<usize>)
    ensures
        match found {
            Some(i) => {
                &&& i < attackers.len()
                &&& attackers[i as int].entity == entity
                &&& attacker_ids(attackers@).index_of_first(entity) == Some(i as int)
            },
            None => attacker_ids(attackers@).index_of_first(entity).is_none(),
        },
{
    let ghost ids = attacker_ids(attackers@);
    let mut i: usize = 0;
    while i < attackers.len()
        invariant
            i <= attackers.len(),
            ids == attacker_ids(attackers@),
            forall|j: int| 0 <= j < i ==> ids[j] != entity,
        decreases attackers.len() - i,
    {
        if attackers[i].entity == entity {
            proof {
                assert(ids[i as int] == entity);
                ids.index_of_first_ensures(entity);
            }
            return Some(i);
        }
        i += 1;
    }
    proof {
        ids.index_of_first_ensures(entity);
    }
    None
}

/// The first damageable entity on the list that is `entity`.
pub fn find_damageable(victims: &Vec<Damageable>, entity: Entity) -> (found: Option<usize>)
    ensures
        match found {
            Some(i) => {
                &&& i < victims.len()
                &&& victims[i as int].entity == entity
                &&& damageable_ids(victims@).index_of_first(entity) == Some(i as int)
            },
            None => damageable_ids(victims@).index_of_first(entity).is_none(),
        },
{
    let ghost ids = damageable_ids(victims@);
    let mut i: usize = 0;
    while i < victims.len()
        invariant
            i <= victims.len(),
            ids == damageable_ids(victims@),
            forall|j: int| 0 <= j < i ==> ids[j] != entity,
        decreases victims.len() - i,
    {
        if victims[i].entity == entity {
            proof {
                assert(ids[i as int] == entity);
                ids.index_of_first_ensures(entity);
            }
            return Some(i);
        }
        i += 1;
    }
    proof {
        ids.index_of_first_ensures(entity);
    }
    None
}

/// The name that the log gives an entity: its own, or "Unknown".
pub fn display_name(name: &Option<String>) -> (shown: &str)
    ensures
        shown@ == name_or_unknown(*name),
{
    match name {
        Some(n) => n.as_str(),
        None => "Unknown",
    }
}

/// Writes the log line of one attack.
pub fn attack_message(attacker: &str, victim: &str, damage: u32) -> (line: String)
    ensures
        line@ == attack_line(attacker@, victim@, damage as nat),
{
    let mut line = String::from_str(attacker);
    line.append(" attacks ");
    line.append(victim);
    line.append(" for ");
    let amount = decimal_string(damage);
    line.append(amount.as_str());
    line.append(" damage");
    line
}

/// Writes the log line of one death.
pub fn death_message(name: &str) -> (line: String)
    ensures
        line@ == death_line(name@),
{
    let mut line = String::from_str(name);
    line.append(" died");
    line
}

/// Applies one attack of `damage` by `attacker` to `victim` and logs it.
fn strike(game_log: &mut GameLog, attacker: &Attacker, victim: &mut Damageable, damage: u32)
    ensures
        *final(victim) == (Damageable {
            health: old(victim).health.damaged(damage as int),
            ..*old(victim)
        }),
        final(game_log)@ == old(game_log)@.push(
            attack_line(attacker.name@, name_or_unknown(old(victim).name), damage as nat),
        ),
{
    let line = attack_message(attacker.name.as_str(), display_name(&victim.name), damage);
    victim.health.lose(damage);
    game_log.push_line(line);
}

/// Resolves one attack whose roll came out as `damage`: the target loses that
/// many hit points, never going below zero, and the log gets one line. An
/// attack whose attacker or target is not on the lists is dropped.
pub fn resolve_attack(
    game_log: &mut GameLog,
    event: &AttackEvent,
    attackers: &Vec<Attacker>,
    victims: &mut Vec<Damageable>,
    damage: u32,
)
    ensures
        (final(victims)@, final(game_log)@) == after_attack(
            old(victims)@,
            old(game_log)@,
            attackers@,
            *event,
            damage as nat,
        ),
        damageable_ids(final(victims)@) == damageable_ids(old(victims)@),
{
    let attacker = match find_attacker(attackers, event.attacker) {
        Some(a) => a,
        None => {
            return ;
        },
    };
    let victim = match find_damageable(victims, event.target) {
        Some(v) => v,
        None => {
            return ;
        },
    };
    proof {
        attacker_ids(attackers@).index_of_first_ensures(event.attacker);
        damageable_ids(victims@).index_of_first_ensures(event.target);
    }
    strike(game_log, &attackers[attacker], &mut victims[victim], damage);
    assert(victims@ =~= old(victims)@.update(
        victim as int,
        Damageable {
            health: old(victims)@[victim as int].health.damaged(damage as int),
            ..old(victims)@[victim as int]
        },
    ));
    assert(damageable_ids(victims@) =~= damageable_ids(old(victims)@));
}

/// Whether `after` is what the attacks of `events` leave of `before` (health
/// and log) when they deal `damages`, each of them a damage that its attack can deal.
pub open spec fn is_combat_outcome(
    before: (Seq<Damageable>, Seq<Seq<char>>),
    attackers: Seq<Attacker>,
    events: Seq<AttackEvent>,
    damages: Seq<nat>,
    after: (Seq<Damageable>, Seq<Seq<char>>),
) -> bool {
    &&& damages.len() == events.len()
    &&& forall|j: int|
        0 <= j < events.len() ==> is_possible_damage(before.0, attackers, #[trigger] events[j], damages[j])
    &&& after == after_attacks(before.0, before.1, attackers, events, damages)
}

/// Resolves the attacks of one cycle in order. Each attack whose attacker and
/// target are both on the lists rolls the attacker's dice once, takes the
/// damage from the target's hit points, which stop at zero, and logs one line;
/// any other attack is dropped without a roll. Nobody is removed here: the
/// death sweep runs after all attacks of the cycle.
pub fn combat(
    game_log: &mut GameLog,
    attack_events: &Vec<AttackEvent>,
    attackers: &Vec<Attacker>,
    victims: &mut Vec<Damageable>,
    rng: &mut RandomNumberGenerator,
)
    ensures
        exists|damages: Seq<nat>| #[trigger]
            is_combat_outcome(
                (old(victims)@, old(game_log)@),
                attackers@,
                attack_events@,
                damages,
                (final(victims)@, final(game_log)@),
            ),
{
    let ghost mut damages: Seq<nat> = Seq::empty();
    let mut j: usize = 0;
    while j < attack_events.len()
        invariant
            j <= attack_events.len(),
            damageable_ids(victims@) == damageable_ids(old(victims)@),
            is_combat_outcome(
                (old(victims)@, old(game_log)@),
                attackers@,
                attack_events@.take(j as int),
                damages,
                (victims@, game_log@),
            ),
        decreases attack_events.len() - j,
    {
        let event = &attack_events[j];
        let ghost seen = attack_events@.take(j as int);
        let ghost next = attack_events@.take(j + 1);
        let ghost earlier = damages;
        let ghost mut dealt: nat = 0;
        assert(next.drop_last() =~= seen);
        assert(next.last() == *event);
        match find_attacker(attackers, event.attacker) {
            Some(a) => {
                match find_damageable(victims, event.target) {
                    Some(_v) => {
                        let damage = attackers[a].attack.dice().roll(rng);
                        proof {
                            dealt = damage as nat;
                        }
                        resolve_attack(game_log, event, attackers, victims, damage as u32);
                    },
                    None => {},
                }
            },
            None => {},
        }
        proof {
            damages = earlier.push(dealt);
            assert(damages.drop_last() =~= earlier);
            assert forall|k: int| 0 <= k < next.len() implies is_possible_damage(
                old(victims)@,
                attackers@,
                #[trigger] next[k],
                damages[k],
            ) by {
                if k < j {
                    assert(next[k] == seen[k]);
                }
            }
        }
        j += 1;
    }
    assert(attack_events@.take(j as int) =~= attack_events@);
}

/// The death sweep: lists every entity of `actors` that has no hit points
/// left, in order, for removal, and logs one line for each.
pub fn track_dead(game_log: &mut GameLog, actors: &Vec<Damageable>) -> (dead: Vec<Entity>)
    ensures
        dead@ == casualties(actors@),
        final(game_log)@ == old(game_log)@ + obituaries(actors@),
{
    let mut dead: Vec<Entity> = Vec::new();
    let mut i: usize = 0;
    while i < actors.len()
        invariant
            i <= actors.len(),
            dead@ == casualties(actors@.take(i as int)),
            game_log@ == old(game_log)@ + obituaries(actors@.take(i as int)),
        decreases actors.len() - i,
    {
        assert(actors@.take(i + 1).drop_last() =~= actors@.take(i as int));
        if actors[i].health.is_dead() {
            let line = death_message(display_name(&actors[i].name));
            game_log.push_line(line);
            dead.push(actors[i].entity);
            assert(game_log@ =~= old(game_log)@ + obituaries(actors@.take(i + 1)));
        }
        i += 1;
    }
    assert(actors@.take(i as int) =~= actors@);
    dead
}

} // verus!
