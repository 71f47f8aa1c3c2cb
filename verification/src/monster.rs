//! Monsters: their kinds, and how one that takes a turn decides where to go.

use vstd::prelude::*;
use vstd::string::StringExecFns;
use bracket_geometry::prelude::{Bresenham, Point};
use bracket_random::prelude::RandomNumberGenerator;
use crate::combat::{Attack, CombatStatsBundle, Dice, Health};
use crate::components::{
    spec_distance_squared, Energy, Entity, Layer, MovingEntityBundle, Position, WantToMove,
    LAYER_MONSTER,
};
use crate::grid::GridIndex;

verus! {

/// How far a monster notices the player, in cells.
pub const VISION_RANGE: u32 = 6;

/// The cells that `Bresenham::new(from, to)` of `bracket-geometry` walks
/// through, in order: the line from `from` towards `to`, with `from` and
/// without `to`.
pub uninterp spec fn bresenham_line(from: Position, to: Position) -> Seq<Position>;

/// Collects what the iterator `Bresenham::new(from, to)` yields. The iterator
/// computes in `i32` on the coordinates, their negations and their
/// differences, and yields as many cells as the longer side of the line has,
/// so the cells are kept off the negative side and a bounded distance apart.
#[verifier::external_body]
fn line_between(from: &Position, to: &Position) -> (line: Vec<Position>)
    requires
        from.x >= 0,
        from.y >= 0,
        to.x >= 0,
        to.y >= 0,
        spec_distance_squared(*from, *to) <= i32::MAX,
    ensures
        line@ == bresenham_line(*from, *to),
{
    Bresenham::new(Point::new(from.x, from.y), Point::new(to.x, to.y))
        .map(|p| Position { x: p.x, y: p.y })
        .collect()
}

/// Whether nothing opaque lies on `line`.
pub open spec fn is_clear(index: &GridIndex, line: Seq<Position>) -> bool {
    forall|i: int| 0 <= i < line.len() ==> !index.opaque_cells().contains(#[trigger] line[i])
}

/// What a monster that takes a turn does next.
#[derive(Clone, Copy, Debug, PartialEq, Eq, Structural)]
pub enum MonsterPlan {
    /// It stays where it is.
    Idle,
    /// It looks for a way from the cell with index `from` to the one with index `to`.
    Seek { from: usize, to: usize },
}

/// The plan of a monster at `monster` with the player at `player`: it seeks
/// the player if both stand on the grid, no more than the vision range
/// apart, with nothing opaque on the line from the player to the monster.
pub open spec fn plan_for(index: &GridIndex, monster: Position, player: Position) -> MonsterPlan {
    if spec_distance_squared(player, monster) > VISION_RANGE * VISION_RANGE {
        MonsterPlan::Idle
    } else {
        match (index.index_of(monster), index.index_of(player)) {
            (Some(from), Some(to)) => if is_clear(index, bresenham_line(player, monster)) {
                MonsterPlan::Seek { from: from as usize, to: to as usize }
            } else {
                MonsterPlan::Idle
            },
            _ => MonsterPlan::Idle,
        }
    }
}

/// Whether nothing opaque lies on `line`.
pub fn line_is_clear(index: &GridIndex, line: &Vec<Position>) -> (clear: bool)
    ensures
        clear == is_clear(index, line@),
{
    let mut i: usize = 0;
    while i < line.len()
        invariant
            i <= line.len(),
            forall|j: int| 0 <= j < i ==> !index.opaque_cells().contains(#[trigger] line@[j]),
        decreases line.len() - i,
    {
        if index.is_opaque_at(&line[i]) {
            return false;
        }
        i += 1;
    }
    true
}

/// Decides whether a monster at `monster` goes after the player at `player`.
pub fn monster_plan(index: &GridIndex, monster: &Position, player: &Position) -> (plan: MonsterPlan)
    ensures
        plan == plan_for(index, *monster, *player),
{
    if !player.is_within(monster, VISION_RANGE) {
        return MonsterPlan::Idle;
    }
    let from = match index.position_idx(monster) {
        Some(i) => i,
        None => {
            return MonsterPlan::Idle;
        },
    };
    let to = match index.position_idx(player) {
        Some(i) => i,
        None => {
            return MonsterPlan::Idle;
        },
    };
    let line = line_between(player, monster);
    if line_is_clear(index, &line) {
        MonsterPlan::Seek { from, to }
    } else {
        MonsterPlan::Idle
    }
}

/// The request that follows from a path search: with a path of more than one
/// cell, to step onto its second cell, the first being the monster's own;
/// with no path, or a second cell beyond the grid, none.
pub open spec fn step_along(index: &GridIndex, success: bool, steps: Seq<usize>) -> Option<WantToMove> {
    if success && steps.len() > 1 {
        match index.cell_of(steps[1] as int) {
            Some(position) => Some(WantToMove { position }),
            None => None,
        }
    } else {
        None
    }
}

/// Turns the outcome of a path search into the monster's request to move.
pub fn monster_step(index: &GridIndex, success: bool, steps: &Vec<usize>) -> (want: Option<WantToMove>)
    ensures
        want == step_along(index, success, steps@),
{
    if success && steps.len() > 1 {
        match index.cell_at(steps[1]) {
            Some(position) => Some(WantToMove { position }),
            None => None,
        }
    } else {
        None
    }
}

/// A monster that takes a turn, as its decision sees it.
#[derive(Clone, Copy, Debug, PartialEq, Eq, Structural)]
pub struct Hunter {
    pub entity: Entity,
    pub position: Position,
    pub energy: Energy,
}

/// A path search that a monster asks for.
#[derive(Clone, Copy, Debug, PartialEq, Eq, Structural)]
pub struct PathRequest {
    pub entity: Entity,
    pub from: usize,
    pub to: usize,
}

/// The path searches that `monsters` ask for with the player at `player`, in order.
pub open spec fn requests_of(index: &GridIndex, player: Position, monsters: Seq<Hunter>) -> Seq<PathRequest>
    decreases monsters.len(),
{
    if monsters.len() == 0 {
        Seq::empty()
    } else {
        let earlier = requests_of(index, player, monsters.drop_last());
        match plan_for(index, monsters.last().position, player) {
            MonsterPlan::Seek { from, to } => earlier.push(
                PathRequest { entity: monsters.last().entity, from, to },
            ),
            MonsterPlan::Idle => earlier,
        }
    }
}

/// A monster once it has decided: deciding uses up its energy.
pub open spec fn spent(monster: Hunter) -> Hunter {
    Hunter { energy: Energy(0), ..monster }
}

/// Lets every monster that takes a turn decide. Each of them spends its
/// energy, and those that go after the player ask for a path to it. Without a
/// player nothing happens.
pub fn monster_ai(index: &GridIndex, player: Option<Position>, monsters: &mut Vec<Hunter>) -> (requests: Vec<
    PathRequest,
>)
    ensures
        final(monsters)@.len() == old(monsters)@.len(),
        match player {
            Some(at) => {
                &&& requests@ == requests_of(index, at, old(monsters)@)
                &&& forall|i: int|
                    0 <= i < old(monsters)@.len() ==> #[trigger] final(monsters)@[i] == spent(old(monsters)@[i])
            },
            None => requests@.len() == 0 && final(monsters)@ == old(monsters)@,
        },
{
    let mut requests: Vec<PathRequest> = Vec::new();
    let at = match player {
        Some(at) => at,
        None => {
            return requests;
        },
    };
    let n = monsters.len();
    let mut i: usize = 0;
    while i < n
        invariant
            i <= n,
            n == monsters.len(),
            n == old(monsters)@.len(),
            requests@ == requests_of(index, at, old(monsters)@.take(i as int)),
            forall|j: int| 0 <= j < i ==> #[trigger] monsters@[j] == spent(old(monsters)@[j]),
            forall|j: int| i <= j < n ==> #[trigger] monsters@[j] == old(monsters)@[j],
        decreases n - i,
    {
        assert(old(monsters)@.take(i + 1).drop_last() =~= old(monsters)@.take(i as int));
        let monster = monsters[i];
        monsters[i] = Hunter { energy: Energy(0), ..monster };
        match monster_plan(index, &monster.position, &at) {
            MonsterPlan::Seek { from, to } => {
                requests.push(PathRequest { entity: monster.entity, from, to });
            },
            MonsterPlan::Idle => {},
        }
        i += 1;
    }
    assert(old(monsters)@.take(i as int) =~= old(monsters)@);
    requests
}

/// The kinds of monster.
#[derive(Clone, Copy, Debug, PartialEq, Eq, Structural)]
pub enum MonsterKind {
    Orc,
    Goblin,
}

/// What a monster is made of when it enters the world.
#[derive(Debug)]
pub struct MonsterBundle {
    pub name: String,
    pub glyph: char,
    pub unrevealable: bool,
    pub blocker: bool,
    pub layer: Layer,
    pub combat_stats: CombatStatsBundle,
    pub moving: MovingEntityBundle,
}

impl MonsterKind {
    /// The kind that a roll of one six-sided die selects: an orc on a one,
    /// a goblin otherwise.
    pub open spec fn for_roll(roll: int) -> MonsterKind {
        if roll == 1 {
            MonsterKind::Orc
        } else {
            MonsterKind::Goblin
        }
    }

    /// The speed of this kind.
    pub open spec fn spec_speed(self) -> int {
        match self {
            MonsterKind::Orc => 30,
            MonsterKind::Goblin => 45,
        }
    }

    /// The sides of the one die that this kind attacks with.
    pub open spec fn attack_sides(self) -> int {
        match self {
            MonsterKind::Orc => 6,
            MonsterKind::Goblin => 4,
        }
    }

    /// The glyph that this kind is drawn with.
    pub open spec fn spec_glyph(self) -> char {
        match self {
            MonsterKind::Orc => 'o',
            MonsterKind::Goblin => 'g',
        }
    }

    /// The name of this kind.
    pub open spec fn spec_name(self) -> Seq<char> {
        match self {
            MonsterKind::Orc => "Orc"@,
            MonsterKind::Goblin => "Goblin"@,
        }
    }

    /// The kind that a roll of one six-sided die selects.
    pub fn from_roll(roll: i32) -> (kind: Self)
        ensures
            kind == Self::for_roll(roll as int),
    {
        if roll == 1 {
            MonsterKind::Orc
        } else {
            MonsterKind::Goblin
        }
    }

    /// The name of this kind.
    pub fn name(&self) -> (name: &'static str)
        ensures
            name@ == self.spec_name(),
    {
        match self {
            MonsterKind::Orc => "Orc",
            MonsterKind::Goblin => "Goblin",
        }
    }

    /// The glyph that this kind is drawn with.
    pub fn glyph(&self) -> (glyph: char)
        ensures
            glyph == self.spec_glyph(),
    {
        match self {
            MonsterKind::Orc => 'o',
            MonsterKind::Goblin => 'g',
        }
    }

    /// The attack of this kind: one die.
    pub fn attack(&self) -> (attack: Attack)
        ensures
            attack.spec_dice().count() == 1,
            attack.spec_dice().sides() == self.attack_sides(),
            attack.spec_dice().modifier() == 0,
    {
        match self {
            MonsterKind::Orc => {
                assert(Dice::well_formed(1, 6, 0)) by (nonlinear_arith);
                Attack::new(Dice::plain(1, 6))
            },
            MonsterKind::Goblin => {
                assert(Dice::well_formed(1, 4, 0)) by (nonlinear_arith);
                Attack::new(Dice::plain(1, 4))
            },
        }
    }

    /// The speed of this kind.
    pub fn speed(&self) -> (speed: i32)
        ensures
            speed == self.spec_speed(),
    {
        match self {
            MonsterKind::Orc => 30,
            MonsterKind::Goblin => 45,
        }
    }
}

/// Whether `bundle` is a monster of `kind` at `position`, fresh into the
/// world: ten hit points, no energy, the kind's name, glyph, attack and speed.
pub open spec fn is_monster_of(bundle: MonsterBundle, kind: MonsterKind, position: Position) -> bool {
    &&& bundle.name@ == kind.spec_name()
    &&& bundle.glyph == kind.spec_glyph()
    &&& bundle.unrevealable
    &&& bundle.blocker
    &&& bundle.layer == Layer(LAYER_MONSTER)
    &&& bundle.combat_stats.health == (Health { current: 10, max: 10 })
    &&& bundle.combat_stats.attack.spec_dice().count() == 1
    &&& bundle.combat_stats.attack.spec_dice().sides() == kind.attack_sides()
    &&& bundle.combat_stats.attack.spec_dice().modifier() == 0
    &&& bundle.moving.position == position
    &&& bundle.moving.energy == Energy(0)
    &&& bundle.moving.speed.0 == kind.spec_speed()
}

/// Makes a monster of `kind` at `position`.
pub fn monster_of(kind: MonsterKind, position: Position) -> (bundle: MonsterBundle)
    ensures
        is_monster_of(bundle, kind, position),
{
    MonsterBundle {
        name: String::from_str(kind.name()),
        glyph: kind.glyph(),
        unrevealable: true,
        blocker: true,
        layer: Layer(LAYER_MONSTER),
        combat_stats: CombatStatsBundle { health: Health::new(10), attack: kind.attack() },
        moving: MovingEntityBundle::new(kind.speed()).with_position(position),
    }
}

/// Makes a monster at `position`, of a kind picked by the roll of one
/// six-sided die: one time in six an orc, otherwise a goblin.
pub fn spawn_monster(rng: &mut RandomNumberGenerator, position: Position) -> (bundle: MonsterBundle)
    ensures
        is_monster_of(bundle, MonsterKind::Orc, position) || is_monster_of(
            bundle,
            MonsterKind::Goblin,
            position,
        ),
{
    let roll = rng.roll_dice(1, 6);
    monster_of(MonsterKind::from_roll(roll), position)
}

impl Default for MonsterBundle {
    /// A goblin at the origin, a little slower than one that is spawned.
    fn default() -> (bundle: Self)
        ensures
            bundle.name@ == "Goblin"@,
            bundle.glyph == 'g',
            bundle.unrevealable,
            bundle.blocker,
            bundle.layer == Layer(LAYER_MONSTER),
            bundle.combat_stats.health == (Health { current: 10, max: 10 }),
            bundle.combat_stats.attack.spec_dice().count() == 1,
            bundle.combat_stats.attack.spec_dice().sides() == 4,
            bundle.combat_stats.attack.spec_dice().modifier() == 0,
            bundle.moving.position == (Position { x: 0, y: 0 }),
            bundle.moving.energy == Energy(0),
            bundle.moving.speed.0 == 40,
    {
        MonsterBundle {
            name: String::from_str("Goblin"),
            glyph: 'g',
            unrevealable: true,
            blocker: true,
            layer: Layer(LAYER_MONSTER),
            combat_stats: CombatStatsBundle {
                health: Health::new(10),
                attack: MonsterKind::Goblin.attack(),
            },
            moving: MovingEntityBundle::new(40),
        }
    }
}

} // verus!
