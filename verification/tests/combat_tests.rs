use maze_core::color::{desaturated_green, white};
use maze_core::entity::{DeathCallback, Entity, Fighter};
use maze_core::maze::{Maze, Tile};
use maze_core::messages::Messages;

fn fighter(hp: i32, defense: i32, power: i32, on_death: DeathCallback) -> Fighter {
    Fighter { max_hp: hp.max(1), hp, defense, power, on_death }
}

fn open_maze(width: i32, height: i32) -> Maze {
    let mut m: Maze = Vec::new();
    for _ in 0..width {
        let mut col = Vec::new();
        for _ in 0..height {
            col.push(Tile::empty());
        }
        m.push(col);
    }
    m
}

#[test]
fn attack_applies_power_minus_defense() {
    let mut attacker = Entity::new(0, 0, '@', white(), "hero", true);
    attacker.is_alive = true;
    attacker.fighter = Some(fighter(30, 2, 5, DeathCallback::Player));
    let mut defender = Entity::new(1, 0, 'o', desaturated_green(), "orc", true);
    defender.is_alive = true;
    defender.fighter = Some(fighter(10, 2, 3, DeathCallback::Monster));
    let mut log = Messages::new();
    attacker.attack(&mut defender, &mut log);
    assert_eq!(defender.fighter.unwrap().hp, 7);
    assert!(defender.is_alive);
    assert_eq!(log.messages.len(), 1);
    assert_eq!(log.messages[0].0, "hero attacks orc for 3 hit points.");
}

#[test]
fn attack_with_no_edge_has_no_effect() {
    let mut attacker = Entity::new(0, 0, '@', white(), "hero", true);
    attacker.is_alive = true;
    attacker.fighter = Some(fighter(30, 2, 2, DeathCallback::Player));
    let mut defender = Entity::new(1, 0, 'T', desaturated_green(), "troll", true);
    defender.is_alive = true;
    defender.fighter = Some(fighter(16, 5, 4, DeathCallback::Monster));
    let mut log = Messages::new();
    attacker.attack(&mut defender, &mut log);
    assert_eq!(defender.fighter.unwrap().hp, 16);
    assert!(defender.is_alive);
    assert_eq!(log.messages.len(), 1);
    assert_eq!(log.messages[0].0, "hero attacks troll but it has no effect!");
}

#[test]
fn lethal_damage_kills_exactly_once() {
    let mut victim = Entity::new(1, 0, 'o', desaturated_green(), "orc", true);
    victim.is_alive = true;
    victim.fighter = Some(fighter(1, 0, 3, DeathCallback::Monster));
    let mut log = Messages::new();
    victim.take_damage(1, &mut log);
    assert!(!victim.is_alive);
    assert!(victim.fighter.is_none());
    assert!(!victim.is_blocking);
    assert_eq!(victim.name, "remains of orc");
    assert_eq!(victim.glyph, '%');
    assert_eq!(log.messages.len(), 1);
    assert_eq!(log.messages[0].0, "orc is dead!");
    // a corpse has no combat capability left, so further damage is a no-op
    victim.take_damage(5, &mut log);
    assert!(!victim.is_alive);
    assert_eq!(log.messages.len(), 1);
    assert_eq!(victim.name, "remains of orc");
}

#[test]
fn player_death_keeps_record_but_marks_dead() {
    let mut player = Entity::new(0, 0, '@', white(), "go4ko", true);
    player.is_alive = true;
    player.fighter = Some(fighter(2, 0, 5, DeathCallback::Player));
    let mut log = Messages::new();
    player.take_damage(2, &mut log);
    assert!(!player.is_alive);
    assert_eq!(player.glyph, '%');
    assert_eq!(player.name, "go4ko");
    assert_eq!(player.fighter.unwrap().hp, 0);
    assert_eq!(log.messages.len(), 1);
    assert_eq!(log.messages[0].0, "You died!");
    // damage application is gated on being alive: nothing more happens
    player.take_damage(5, &mut log);
    assert_eq!(player.fighter.unwrap().hp, 0);
    assert_eq!(log.messages.len(), 1);
}

#[test]
fn move_into_open_space_moves_the_actor() {
    let maze = open_maze(5, 5);
    let mut player = Entity::new(2, 2, '@', white(), "go4ko", true);
    player.is_alive = true;
    let mut entities = vec![player];
    let mut log = Messages::new();
    let took = Entity::move_by(&maze, &mut entities, &mut log, 0, 1, 0, 5, 5);
    assert!(took);
    assert_eq!((entities[0].x, entities[0].y), (3, 2));
    assert_eq!(log.messages.len(), 0);
}

#[test]
fn move_into_wall_is_a_wasted_input() {
    let mut maze = open_maze(5, 5);
    maze[3][2] = Tile::wall();
    let mut player = Entity::new(2, 2, '@', white(), "go4ko", true);
    player.is_alive = true;
    let mut entities = vec![player];
    let mut log = Messages::new();
    let took = Entity::move_by(&maze, &mut entities, &mut log, 0, 1, 0, 5, 5);
    assert!(!took);
    assert_eq!((entities[0].x, entities[0].y), (2, 2));
}

#[test]
fn move_off_the_grid_is_rejected_before_any_lookup() {
    let maze = open_maze(3, 3);
    let mut player = Entity::new(0, 1, '@', white(), "go4ko", true);
    player.is_alive = true;
    let mut entities = vec![player];
    let mut log = Messages::new();
    let took = Entity::move_by(&maze, &mut entities, &mut log, 0, -1, 0, 3, 3);
    assert!(!took);
    assert_eq!((entities[0].x, entities[0].y), (0, 1));
}

#[test]
fn move_onto_combat_blocker_attacks_instead() {
    let maze = open_maze(5, 5);
    let mut player = Entity::new(2, 2, '@', white(), "go4ko", true);
    player.is_alive = true;
    player.fighter = Some(fighter(30, 2, 5, DeathCallback::Player));
    let mut orc = Entity::new(3, 2, 'o', desaturated_green(), "orc", true);
    orc.is_alive = true;
    orc.fighter = Some(fighter(10, 2, 3, DeathCallback::Monster));
    let mut entities = vec![player, orc];
    let mut log = Messages::new();
    let took = Entity::move_by(&maze, &mut entities, &mut log, 0, 1, 0, 5, 5);
    assert!(took);
    // the player stays put and the orc is hit for 5 - 2 = 3
    assert_eq!((entities[0].x, entities[0].y), (2, 2));
    assert_eq!(entities[1].fighter.unwrap().hp, 7);
    assert_eq!(log.messages.len(), 1);
    assert_eq!(log.messages[0].0, "go4ko attacks orc for 3 hit points.");
}

#[test]
fn second_attack_against_a_corpse_logs_nothing_more() {
    let maze = open_maze(5, 5);
    let mut player = Entity::new(2, 2, '@', white(), "go4ko", true);
    player.is_alive = true;
    player.fighter = Some(fighter(30, 2, 5, DeathCallback::Player));
    let mut orc = Entity::new(3, 2, 'o', desaturated_green(), "orc", true);
    orc.is_alive = true;
    orc.fighter = Some(fighter(1, 0, 3, DeathCallback::Monster));
    let mut entities = vec![player, orc];
    let mut log = Messages::new();
    let took = Entity::move_by(&maze, &mut entities, &mut log, 0, 1, 0, 5, 5);
    assert!(took);
    assert!(!entities[1].is_alive);
    assert_eq!(entities[1].name, "remains of orc");
    let logged = log.messages.len();
    assert_eq!(logged, 2);
    // the corpse no longer blocks and cannot fight: the same input now just
    // moves the player, with no further combat entry
    let took2 = Entity::move_by(&maze, &mut entities, &mut log, 0, 1, 0, 5, 5);
    assert!(took2);
    assert_eq!((entities[0].x, entities[0].y), (3, 2));
    assert_eq!(log.messages.len(), logged);
}

#[test]
fn is_blocked_sees_terrain_and_blocking_entities() {
    let mut maze = open_maze(4, 4);
    maze[1][1] = Tile::wall();
    let mut orc = Entity::new(2, 2, 'o', desaturated_green(), "orc", true);
    orc.is_alive = true;
    let corpse = Entity::new(3, 3, '%', desaturated_green(), "remains", false);
    orc.is_blocking = true;
    let entities = vec![orc, corpse];
    assert!(Entity::is_blocked(1, 1, &maze, &entities, 4, 4));
    assert!(Entity::is_blocked(2, 2, &maze, &entities, 4, 4));
    assert!(!Entity::is_blocked(3, 3, &maze, &entities, 4, 4));
    assert!(!Entity::is_blocked(0, 0, &maze, &entities, 4, 4));
}
