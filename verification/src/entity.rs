//! Entities: positioned, named actors, some of which can fight. An entity
//! that dies is never removed from the session's collection; it becomes an
//! inert corpse record.

use crate::color::{
    dark_red, dark_red_color, orange, orange_color, red, red_color, white, white_color, Color,
};
use crate::maze::{maze_wf, tile_at, Maze};
use crate::messages::Messages;
use crate::numtext::{dec_str, u32_to_string};
use vstd::prelude::*;
use vstd::string::StringExecFns;

verus! {

/// What a resolved player input reports back to the caller.
#[derive(Clone, Copy, Debug, PartialEq, Eq, Structural)]
pub enum PlayerAction {
    TookTurn,
    DidntTakeTurn,
    Exit,
}

/// Which death handling an entity gets: the player is marked dead but kept
/// intact, a monster becomes a harmless corpse.
#[derive(Clone, Copy, Debug, PartialEq, Eq, Structural)]
pub enum DeathCallback {
    Player,
    Monster,
}

/// Combat capability: hit points, attack and defense strength, and the death
/// handling to run when hit points are exhausted.
#[derive(Clone, Copy, Debug, PartialEq, Eq, Structural)]
pub struct Fighter {
    pub max_hp: i32,
    pub hp: i32,
    pub defense: i32,
    pub power: i32,
    pub on_death: DeathCallback,
}

/// Stat bounds kept by every fighter in a session. Hit points never exceed
/// the maximum, and stay above a floor that one further hit cannot break.
pub open spec fn fighter_wf(f: Fighter) -> bool {
    &&& 0 < f.max_hp <= 10000
    &&& -10000 <= f.hp <= f.max_hp
    &&& 0 <= f.defense <= 10000
    &&& 0 <= f.power <= 10000
}

/// A positioned actor: the player, a monster, or a corpse left by one.
pub struct Entity {
    pub x: i32,
    pub y: i32,
    pub glyph: char,
    pub color: Color,
    pub name: String,
    pub is_blocking: bool,
    pub is_alive: bool,
    pub fighter: Option<Fighter>,
}

/// A well-formed entity: its fighter stats, if any, are in bounds, and a
/// living fighter has hit points left.
pub open spec fn entity_wf(e: &Entity) -> bool {
    match e.fighter {
        Option::Some(f) => fighter_wf(f) && (e.is_alive ==> f.hp > 0),
        Option::None => true,
    }
}

/// The attack strength an entity brings: its fighter's power, or none.
pub open spec fn attacker_power(e: Entity) -> int {
    match e.fighter {
        Option::Some(f) => f.power as int,
        Option::None => 0,
    }
}

/// The defense an entity brings: its fighter's defense, or none.
pub open spec fn defender_defense(e: Entity) -> int {
    match e.fighter {
        Option::Some(f) => f.defense as int,
        Option::None => 0,
    }
}

/// Damage one attack of `a` against `d` would deal.
pub open spec fn damage_of(a: Entity, d: Entity) -> int {
    attacker_power(a) - defender_defense(d)
}

/// `f` with its hit points replaced.
pub open spec fn fighter_with_hp(f: Fighter, hp: int) -> Fighter {
    Fighter { max_hp: f.max_hp, hp: hp as i32, defense: f.defense, power: f.power, on_death: f.on_death }
}

/// The fields death handling never touches.
pub open spec fn same_identity(a: Entity, b: Entity) -> bool {
    a.x == b.x && a.y == b.y && a.glyph == b.glyph && a.color == b.color && a.name == b.name
        && a.is_blocking == b.is_blocking
}

pub open spec fn player_death_text() -> Seq<char> {
    "You died!"@
}

pub open spec fn monster_death_text(name: Seq<char>) -> Seq<char> {
    name + " is dead!"@
}

pub open spec fn remains_text(name: Seq<char>) -> Seq<char> {
    "remains of "@ + name
}

pub open spec fn attack_hit_text(a: Seq<char>, d: Seq<char>, damage: int) -> Seq<char> {
    a + " attacks "@ + d + " for "@ + dec_str(damage) + " hit points."@
}

pub open spec fn attack_miss_text(a: Seq<char>, d: Seq<char>) -> Seq<char> {
    a + " attacks "@ + d + " but it has no effect!"@
}

/// How one call to `take_damage` with `damage` turns entity `e0` into `e1`
/// and log `log0` into `log1`.
pub open spec fn take_damage_rel(
    e0: Entity,
    e1: Entity,
    log0: Seq<(Seq<char>, Color)>,
    log1: Seq<(Seq<char>, Color)>,
    damage: int,
) -> bool {
    match e0.fighter {
        Option::Some(f) => {
            if e0.is_alive {
                let hp2 = if damage > 0 {
                    f.hp - damage
                } else {
                    f.hp as int
                };
                if hp2 > 0 {
                    &&& same_identity(e0, e1)
                    &&& e1.is_alive == e0.is_alive
                    &&& e1.fighter == Option::Some(fighter_with_hp(f, hp2))
                    &&& log1 == log0
                } else {
                    match f.on_death {
                        DeathCallback::Player => {
                            &&& e1.x == e0.x && e1.y == e0.y && e1.name == e0.name
                                && e1.is_blocking == e0.is_blocking
                            &&& e1.glyph == '%' && e1.color == dark_red_color()
                            &&& !e1.is_alive
                            &&& e1.fighter == Option::Some(fighter_with_hp(f, hp2))
                            &&& log1 == log0.push((player_death_text(), red_color()))
                        },
                        DeathCallback::Monster => {
                            &&& e1.x == e0.x && e1.y == e0.y
                            &&& e1.glyph == '%' && e1.color == dark_red_color()
                            &&& !e1.is_blocking && !e1.is_alive
                            &&& e1.fighter is None
                            &&& e1.name@ == remains_text(e0.name@)
                            &&& log1 == log0.push((monster_death_text(e0.name@), orange_color()))
                        },
                    }
                }
            } else {
                e1 == e0 && log1 == log0
            }
        },
        Option::None => e1 == e0 && log1 == log0,
    }
}

/// `e` stands on `(tx, ty)`, blocks movement, and can fight.
pub open spec fn is_combat_blocker(e: Entity, tx: int, ty: int) -> bool {
    e.x == tx && e.y == ty && e.is_blocking && e.fighter is Some
}

/// The first combat-capable blocker at `(tx, ty)` among `s`, scanning from
/// position `k` on and never picking the actor itself.
pub open spec fn target_from(s: Seq<Entity>, idx: int, tx: int, ty: int, k: int) -> Option<int>
    decreases s.len() - k,
{
    if k < 0 || k >= s.len() {
        Option::None
    } else if k != idx && is_combat_blocker(s[k], tx, ty) {
        Option::Some(k)
    } else {
        target_from(s, idx, tx, ty, k + 1)
    }
}

/// The first combat-capable blocker at `(tx, ty)`, the actor excluded.
pub open spec fn target_index(s: Seq<Entity>, idx: int, tx: int, ty: int) -> Option<int> {
    target_from(s, idx, tx, ty, 0)
}

fn find_target(entities: &Vec<Entity>, idx: usize, tx: i32, ty: i32) -> (r: Option<usize>)
    ensures
        match r {
            Option::Some(j) => j < entities@.len() && target_index(
                entities@,
                idx as int,
                tx as int,
                ty as int,
            ) == Option::Some(j as int),
            Option::None => target_index(entities@, idx as int, tx as int, ty as int) is None,
        },
{
    let mut k: usize = 0;
    while k < entities.len()
        invariant
            k <= entities@.len(),
            target_index(entities@, idx as int, tx as int, ty as int) == target_from(
                entities@,
                idx as int,
                tx as int,
                ty as int,
                k as int,
            ),
        decreases entities@.len() - k,
    {
        let e = &entities[k];
        if k != idx && e.is_blocking && e.fighter.is_some() && e.x == tx && e.y == ty {
            return Option::Some(k);
        }
        k = k + 1;
    }
    Option::None
}

/// How one `move_by` call turns the entity collection `es0` into `es1` and
/// the log `log0` into `log1`, and whether the turn was consumed.
///
/// A target cell off the grid or blocked by terrain is a no-op that consumes
/// nothing. Otherwise the actor attacks the first combat-capable blocker on
/// the cell, or, when there is none, moves onto it; both consume the turn.
pub open spec fn move_by_rel(
    maze: &Maze,
    es0: Seq<Entity>,
    es1: Seq<Entity>,
    log0: Seq<(Seq<char>, Color)>,
    log1: Seq<(Seq<char>, Color)>,
    idx: int,
    dx: int,
    dy: int,
    width: int,
    height: int,
    took: bool,
) -> bool {
    let tx = es0[idx].x + dx;
    let ty = es0[idx].y + dy;
    if !(0 <= tx < width && 0 <= ty < height) || tile_at(maze, tx, ty).blocked {
        es1 == es0 && log1 == log0 && !took
    } else {
        match target_index(es0, idx, tx, ty) {
            Option::Some(j) => {
                &&& took
                &&& es1.len() == es0.len()
                &&& forall|k: int| 0 <= k < es0.len() && k != j ==> es1[k] == es0[k]
                &&& ({
                    let dmg = damage_of(es0[idx], es0[j]);
                    if dmg > 0 {
                        take_damage_rel(
                            es0[j],
                            es1[j],
                            log0.push(
                                (attack_hit_text(es0[idx].name@, es0[j].name@, dmg), white_color()),
                            ),
                            log1,
                            dmg,
                        )
                    } else {
                        es1[j] == es0[j] && log1 == log0.push(
                            (attack_miss_text(es0[idx].name@, es0[j].name@), white_color()),
                        )
                    }
                })
            },
            Option::None => {
                &&& took
                &&& es1.len() == es0.len()
                &&& forall|k: int| 0 <= k < es0.len() && k != idx ==> es1[k] == es0[k]
                &&& es1[idx].x == tx && es1[idx].y == ty
                &&& es1[idx].glyph == es0[idx].glyph && es1[idx].color == es0[idx].color
                &&& es1[idx].name == es0[idx].name && es1[idx].is_blocking == es0[idx].is_blocking
                &&& es1[idx].is_alive == es0[idx].is_alive && es1[idx].fighter == es0[idx].fighter
                &&& log1 == log0
            },
        }
    }
}

fn attack_message(attacker: &String, defender: &String, damage: u32) -> (s: String)
    ensures
        s@ == attack_hit_text(attacker@, defender@, damage as int),
{
    let mut s = attacker.clone();
    s.append(" attacks ");
    s.append(defender.as_str());
    s.append(" for ");
    let n = u32_to_string(damage);
    s.append(n.as_str());
    s.append(" hit points.");
    proof {
        assert(s@ =~= attack_hit_text(attacker@, defender@, damage as int));
    }
    s
}

fn miss_message(attacker: &String, defender: &String) -> (s: String)
    ensures
        s@ == attack_miss_text(attacker@, defender@),
{
    let mut s = attacker.clone();
    s.append(" attacks ");
    s.append(defender.as_str());
    s.append(" but it has no effect!");
    proof {
        assert(s@ =~= attack_miss_text(attacker@, defender@));
    }
    s
}

impl DeathCallback {
    /// End of the player: mark the entity dead and turn it into a corpse
    /// marker, but keep its name and combat record.
    pub fn player_death(player: &mut Entity, messages: &mut Messages)
        ensures
            final(player).x == old(player).x,
            final(player).y == old(player).y,
            final(player).name == old(player).name,
            final(player).is_blocking == old(player).is_blocking,
            final(player).fighter == old(player).fighter,
            final(player).glyph == '%',
            final(player).color == dark_red_color(),
            !final(player).is_alive,
            final(messages)@ == old(messages)@.push((player_death_text(), red_color())),
    {
        messages.add(String::from_str("You died!"), red());
        player.glyph = '%';
        player.color = dark_red();
        player.is_alive = false;
    }

    /// End of a monster: it becomes an inert corpse that neither blocks nor
    /// fights, renamed to the remains of what it was.
    pub fn monster_death(monster: &mut Entity, messages: &mut Messages)
        ensures
            final(monster).x == old(monster).x,
            final(monster).y == old(monster).y,
            final(monster).glyph == '%',
            final(monster).color == dark_red_color(),
            !final(monster).is_blocking,
            !final(monster).is_alive,
            final(monster).fighter is None,
            final(monster).name@ == remains_text(old(monster).name@),
            final(messages)@ == old(messages)@.push(
                (monster_death_text(old(monster).name@), orange_color()),
            ),
    {
        let msg = monster.name.clone().concat(" is dead!");
        messages.add(msg, orange());
        monster.glyph = '%';
        monster.color = dark_red();
        monster.is_blocking = false;
        monster.is_alive = false;
        monster.fighter = Option::None;
        let new_name = String::from_str("remains of ").concat(monster.name.as_str());
        monster.name = new_name;
    }

    /// Run the death handling this tag selects.
    pub fn callback(self, entity: &mut Entity, messages: &mut Messages)
        ensures
            final(entity).x == old(entity).x,
            final(entity).y == old(entity).y,
            final(entity).glyph == '%',
            final(entity).color == dark_red_color(),
            !final(entity).is_alive,
            self == DeathCallback::Player ==> {
                &&& final(entity).name == old(entity).name
                &&& final(entity).is_blocking == old(entity).is_blocking
                &&& final(entity).fighter == old(entity).fighter
                &&& final(messages)@ == old(messages)@.push((player_death_text(), red_color()))
            },
            self == DeathCallback::Monster ==> {
                &&& !final(entity).is_blocking
                &&& final(entity).fighter is None
                &&& final(entity).name@ == remains_text(old(entity).name@)
                &&& final(messages)@ == old(messages)@.push(
                    (monster_death_text(old(entity).name@), orange_color()),
                )
            },
    {
        match self {
            DeathCallback::Player => DeathCallback::player_death(entity, messages),
            DeathCallback::Monster => DeathCallback::monster_death(entity, messages),
        }
    }
}

impl Entity {
    /// A fresh entity: not yet alive, with no combat capability.
    pub fn new(x: i32, y: i32, glyph: char, color: Color, name: &str, is_blocking: bool) -> (e:
        Entity)
        ensures
            e.x == x,
            e.y == y,
            e.glyph == glyph,
            e.color == color,
            e.name@ == name@,
            e.is_blocking == is_blocking,
            !e.is_alive,
            e.fighter is None,
            entity_wf(&e),
    {
        Entity {
            x,
            y,
            glyph,
            color,
            name: String::from_str(name),
            is_blocking,
            is_alive: false,
            fighter: Option::None,
        }
    }

    pub fn get_pos(&self) -> (p: (i32, i32))
        ensures
            p.0 == self.x,
            p.1 == self.y,
    {
        (self.x, self.y)
    }

    /// Apply `damage` to this entity. A hit only lands on a living fighter;
    /// when hit points run out, the entity's death handling runs exactly once.
    pub fn take_damage(&mut self, damage: i32, messages: &mut Messages)
        requires
            entity_wf(old(self)),
            -10000 <= damage <= 10000,
        ensures
            entity_wf(final(self)),
            take_damage_rel(
                *old(self),
                *final(self),
                old(messages)@,
                final(messages)@,
                damage as int,
            ),
    {
        match self.fighter {
            Option::Some(f) => {
                if self.is_alive {
                    let hp2 = if damage > 0 {
                        f.hp - damage
                    } else {
                        f.hp
                    };
                    self.fighter = Option::Some(
                        Fighter {
                            max_hp: f.max_hp,
                            hp: hp2,
                            defense: f.defense,
                            power: f.power,
                            on_death: f.on_death,
                        },
                    );
                    if hp2 <= 0 {
                        f.on_death.callback(self, messages);
                    }
                }
            },
            Option::None => {},
        }
    }

    /// Resolve one attack of this entity against `target`: damage is the
    /// attacker's power less the defender's defense; a non-positive result
    /// has no effect. Either way one combat entry is logged, and a kill adds
    /// the death entry after it.
    pub fn attack(&mut self, target: &mut Entity, messages: &mut Messages)
        requires
            entity_wf(old(self)),
            entity_wf(old(target)),
        ensures
            *final(self) == *old(self),
            entity_wf(final(target)),
            ({
                let dmg = damage_of(*old(self), *old(target));
                if dmg > 0 {
                    take_damage_rel(
                        *old(target),
                        *final(target),
                        old(messages)@.push(
                            (
                                attack_hit_text(old(self).name@, old(target).name@, dmg),
                                white_color(),
                            ),
                        ),
                        final(messages)@,
                        dmg,
                    )
                } else {
                    *final(target) == *old(target) && final(messages)@ == old(messages)@.push(
                        (attack_miss_text(old(self).name@, old(target).name@), white_color()),
                    )
                }
            }),
    {
        let apower = match self.fighter {
            Option::Some(f) => f.power,
            Option::None => 0,
        };
        let ddef = match target.fighter {
            Option::Some(f) => f.defense,
            Option::None => 0,
        };
        let damage = apower - ddef;
        if damage > 0 {
            let msg = attack_message(&self.name, &target.name, damage as u32);
            messages.add(msg, white());
            target.take_damage(damage, messages);
        } else {
            let msg = miss_message(&self.name, &target.name);
            messages.add(msg, white());
        }
    }

    /// The cell `(x, y)` cannot be entered: it is wall terrain, or some
    /// blocking entity stands on it.
    pub fn is_blocked(x: i32, y: i32, maze: &Maze, entities: &Vec<Entity>, width: i32, height: i32) -> (r: bool)
        requires
            maze_wf(maze, width as int, height as int),
            0 <= x < width,
            0 <= y < height,
        ensures
            r == (tile_at(maze, x as int, y as int).blocked || exists|k: int|
                0 <= k < entities@.len() && (#[trigger] entities@[k]).is_blocking && entities@[k].x
                    == x && entities@[k].y == y),
    {
        let row = &maze[x as usize];
        if row[y as usize].blocked {
            return true;
        }
        let mut k: usize = 0;
        while k < entities.len()
            invariant
                k <= entities@.len(),
                forall|i: int|
                    0 <= i < k ==> !((#[trigger] entities@[i]).is_blocking && entities@[i].x == x
                        && entities@[i].y == y),
            decreases entities@.len() - k,
        {
            let e = &entities[k];
            if e.is_blocking && e.x == x && e.y == y {
                return true;
            }
            k = k + 1;
        }
        false
    }

    /// Resolve one intended move of the actor at `idx` by `(dx, dy)`:
    /// a step into a wall or off the grid is a wasted input; a step onto a
    /// combat-capable blocker becomes an attack; any other step moves the
    /// actor. Returns whether the turn was consumed.
    pub fn move_by(
        maze: &Maze,
        entities: &mut Vec<Entity>,
        messages: &mut Messages,
        idx: usize,
        dx: i32,
        dy: i32,
        width: i32,
        height: i32,
    ) -> (took: bool)
        requires
            maze_wf(maze, width as int, height as int),
            0 < width <= 10000,
            0 < height <= 10000,
            idx < old(entities)@.len(),
            forall|k: int| 0 <= k < old(entities)@.len() ==> entity_wf(&old(entities)@[k]),
            0 <= old(entities)@[idx as int].x < width,
            0 <= old(entities)@[idx as int].y < height,
            -1 <= dx <= 1,
            -1 <= dy <= 1,
        ensures
            final(entities)@.len() == old(entities)@.len(),
            forall|k: int| 0 <= k < final(entities)@.len() ==> entity_wf(&final(entities)@[k]),
            move_by_rel(
                maze,
                old(entities)@,
                final(entities)@,
                old(messages)@,
                final(messages)@,
                idx as int,
                dx as int,
                dy as int,
                width as int,
                height as int,
                took,
            ),
    {
        let (x, y) = {
            let e = &entities[idx];
            (e.x, e.y)
        };
        let tx = x + dx;
        let ty = y + dy;
        if tx < 0 || ty < 0 || tx >= width || ty >= height {
            return false;
        }
        {
            let row = &maze[tx as usize];
            if row[ty as usize].blocked {
                return false;
            }
        }
        match find_target(entities, idx, tx, ty) {
            Option::Some(j) => {
                let (apower, aname) = {
                    let att = &entities[idx];
                    let p = match att.fighter {
                        Option::Some(f) => f.power,
                        Option::None => 0,
                    };
                    (p, att.name.clone())
                };
                let ddef = match entities[j].fighter {
                    Option::Some(f) => f.defense,
                    Option::None => 0,
                };
                let damage = apower - ddef;
                if damage > 0 {
                    let msg = attack_message(&aname, &entities[j].name, damage as u32);
                    messages.add(msg, white());
                    let t = &mut entities[j];
                    t.take_damage(damage, messages);
                } else {
                    let msg = miss_message(&aname, &entities[j].name);
                    messages.add(msg, white());
                }
                true
            },
            Option::None => {
                let e = &mut entities[idx];
                e.set_pos(tx, ty);
                true
            },
        }
    }

    pub fn set_pos(&mut self, x: i32, y: i32)
        ensures
            final(self).x == x,
            final(self).y == y,
            final(self).glyph == old(self).glyph,
            final(self).color == old(self).color,
            final(self).name == old(self).name,
            final(self).is_blocking == old(self).is_blocking,
            final(self).is_alive == old(self).is_alive,
            final(self).fighter == old(self).fighter,
    {
        self.x = x;
        self.y = y;
    }
}

/// What the target scan returns is always a combat-capable blocker on the
/// cell, never the actor itself.
pub proof fn lemma_target_from_props(s: Seq<Entity>, idx: int, tx: int, ty: int, k0: int)
    ensures
        match target_from(s, idx, tx, ty, k0) {
            Option::Some(j) => k0 <= j < s.len() && j != idx && is_combat_blocker(s[j], tx, ty),
            Option::None => true,
        },
    decreases s.len() - k0,
{
    if k0 < 0 || k0 >= s.len() {
    } else if k0 != idx && is_combat_blocker(s[k0], tx, ty) {
    } else {
        lemma_target_from_props(s, idx, tx, ty, k0 + 1);
    }
}

} // verus!
