use maze_core::color::white;
use maze_core::engine::{
    generate_session, step, EngineState, Game, GameConfig, GameSession, IntendedAction,
};
use maze_core::entity::{DeathCallback, Entity, Fighter};
use maze_core::maze::{GenConfig, Maze, Tile};
use maze_core::messages::Messages;
use maze_core::visibility::VisibilityField;

fn small_config() -> GameConfig {
    GameConfig {
        gen: GenConfig {
            width: 20,
            height: 20,
            max_rooms: 30,
            room_min_size: 4,
            room_max_size: 6,
            max_monsters_per_room: 3,
        },
        fov_radius: 10,
        light_walls: true,
    }
}

fn open_maze(width: i32, height: i32) -> Maze {
    let mut m: Maze = Vec::new();
    for _ in 0..width {
        let mut col = Vec::new();
        for _ in 0..height {
            col.push(Tile::empty());
        }
        m.push(col);
    }
    m
}

/// A 5x5 hand-made session: open floor everywhere except a wall directly
/// above the player at (2, 2).
fn hand_session() -> GameSession {
    let mut maze = open_maze(5, 5);
    maze[2][1] = Tile::wall();
    let mut player = Entity::new(2, 2, '@', white(), "go4ko", true);
    player.is_alive = true;
    player.fighter = Some(Fighter {
        max_hp: 30,
        hp: 30,
        defense: 2,
        power: 5,
        on_death: DeathCallback::Player,
    });
    GameSession {
        config: GameConfig {
            gen: GenConfig {
                width: 5,
                height: 5,
                max_rooms: 1,
                room_min_size: 2,
                room_max_size: 2,
                max_monsters_per_room: 0,
            },
            fov_radius: 10,
            light_walls: true,
        },
        game: Game { maze, messages: Messages::new() },
        entities: vec![player],
        rooms: Vec::new(),
        vis: VisibilityField::new(5, 5, 10, true),
        state: EngineState::Running,
        display_toggle: false,
    }
}

#[test]
fn moving_into_a_wall_consumes_no_turn() {
    let mut s = hand_session();
    let r = step(&mut s, IntendedAction::MoveUp);
    assert!(!r.took_turn);
    assert!(!r.exited);
    assert_eq!((s.entities[0].x, s.entities[0].y), (2, 2));
}

#[test]
fn moving_into_open_space_consumes_the_turn() {
    let mut s = hand_session();
    let r = step(&mut s, IntendedAction::MoveDown);
    assert!(r.took_turn);
    assert!(!r.exited);
    assert_eq!((s.entities[0].x, s.entities[0].y), (2, 3));
}

#[test]
fn toggling_the_display_mode_consumes_no_turn() {
    let mut s = hand_session();
    let r = step(&mut s, IntendedAction::ToggleDisplayMode);
    assert!(!r.took_turn);
    assert!(!r.exited);
    assert!(s.display_toggle);
    let r2 = step(&mut s, IntendedAction::ToggleDisplayMode);
    assert!(!r2.took_turn);
    assert!(!s.display_toggle);
}

#[test]
fn idle_input_changes_nothing() {
    let mut s = hand_session();
    let r = step(&mut s, IntendedAction::Idle);
    assert!(!r.took_turn);
    assert!(!r.exited);
    assert_eq!((s.entities[0].x, s.entities[0].y), (2, 2));
}

#[test]
fn exit_is_terminal_and_mutates_nothing_further() {
    let mut s = hand_session();
    let r = step(&mut s, IntendedAction::Exit);
    assert!(r.exited);
    assert!(!r.took_turn);
    let before_pos = (s.entities[0].x, s.entities[0].y);
    let before_log = s.game.messages.messages.len();
    for action in [
        IntendedAction::MoveDown,
        IntendedAction::MoveLeft,
        IntendedAction::ToggleDisplayMode,
        IntendedAction::Exit,
        IntendedAction::Idle,
    ] {
        let r2 = step(&mut s, action);
        assert!(r2.exited);
        assert!(!r2.took_turn);
    }
    assert_eq!((s.entities[0].x, s.entities[0].y), before_pos);
    assert_eq!(s.game.messages.messages.len(), before_log);
    assert!(!s.display_toggle);
}

#[test]
fn dead_player_cannot_move() {
    let mut s = hand_session();
    s.entities[0].is_alive = false;
    let r = step(&mut s, IntendedAction::MoveDown);
    assert!(!r.took_turn);
    assert!(!r.exited);
    assert_eq!((s.entities[0].x, s.entities[0].y), (2, 2));
}

#[test]
fn generated_session_greets_and_reports_hp() {
    let s = generate_session(small_config(), 1234);
    assert_eq!(s.game.messages.messages.len(), 1);
    assert_eq!(
        s.game.messages.messages[0].0,
        "Welcome player! Prepare for the adventure of your life."
    );
    assert_eq!(s.player_hp(), (30, 30));
    assert_eq!(s.entities[0].name, "go4ko");
    assert!(s.entities[0].is_alive);
    assert!(!s.rooms.is_empty());
    let first = &s.rooms[0];
    assert_eq!((s.entities[0].x, s.entities[0].y), first.center());
    // the player's own tile is visible and therefore explored
    let (px, py) = (s.entities[0].x, s.entities[0].y);
    assert!(s.vis.is_in_fov(px, py));
    assert!(s.game.maze[px as usize][py as usize].is_explored);
}

#[test]
fn stepping_a_generated_session_keeps_the_turn_contract() {
    let mut s = generate_session(small_config(), 1234);
    let (px, py) = (s.entities[0].x, s.entities[0].y);
    let r = step(&mut s, IntendedAction::MoveRight);
    let target_blocked = s.game.maze[(px + 1) as usize][py as usize].blocked;
    if target_blocked {
        assert!(!r.took_turn);
        assert_eq!((s.entities[0].x, s.entities[0].y), (px, py));
    } else {
        assert!(r.took_turn);
    }
    assert!(!r.exited);
}
