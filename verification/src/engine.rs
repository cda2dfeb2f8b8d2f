//! The turn engine: a session owns the grid, the entity collection, the
//! message log and the field of view, and consumes one intended action per
//! tick. Once exited, a session is terminal and never changes again.

use crate::color::{red, red_color, white, white_color};
use crate::entity::{
    entity_wf, lemma_target_from_props, move_by_rel, DeathCallback, Entity, Fighter,
};
use crate::maze::{
    gen_config_wf, is_seed_monster, maze_wf, rooms_disjoint, room_in_bounds, create_maze,
    GenConfig, Maze, Room,
};
use crate::messages::Messages;
use crate::rng::rng_from_seed;
use crate::visibility::{vis_at, vis_update_rel, vis_wf, VisibilityField};
use vstd::prelude::*;
use vstd::string::StringExecFns;

verus! {

/// The player is always the first entity of a session.
pub const PLAYER: usize = 0;

/// The grid and the message log: what the maze game mutates each turn.
pub struct Game {
    pub maze: Maze,
    pub messages: Messages,
}

/// One externally supplied intention per tick.
#[derive(Clone, Copy, Debug, PartialEq, Eq, Structural)]
pub enum IntendedAction {
    MoveUp,
    MoveDown,
    MoveLeft,
    MoveRight,
    ToggleDisplayMode,
    Exit,
    Idle,
}

/// The engine's two states; `Exited` is terminal.
#[derive(Clone, Copy, Debug, PartialEq, Eq, Structural)]
pub enum EngineState {
    Running,
    Exited,
}

/// What one tick reports: whether the action consumed a turn, and whether
/// the session has (now or earlier) exited.
#[derive(Clone, Copy, Debug, PartialEq, Eq, Structural)]
pub struct StepResult {
    pub took_turn: bool,
    pub exited: bool,
}

/// Everything a session is configured with, immutable thereafter.
#[derive(Clone, Copy, Debug, PartialEq, Eq, Structural)]
pub struct GameConfig {
    pub gen: GenConfig,
    pub fov_radius: i32,
    pub light_walls: bool,
}

pub open spec fn game_config_wf(c: GameConfig) -> bool {
    gen_config_wf(c.gen) && 0 <= c.fov_radius <= 10000
}

/// One running game: the grid and log, the entities (the player first,
/// never removed), the accepted rooms of generation, the field of view, and
/// the engine state.
pub struct GameSession {
    pub config: GameConfig,
    pub game: Game,
    pub entities: Vec<Entity>,
    pub rooms: Vec<Room>,
    pub vis: VisibilityField,
    pub state: EngineState,
    pub display_toggle: bool,
}

/// The session invariant: the grid and field of view have the configured
/// dimensions, there is a player, every entity is well-formed, and the
/// player stands on the grid.
pub open spec fn session_wf(s: &GameSession) -> bool {
    &&& game_config_wf(s.config)
    &&& maze_wf(&s.game.maze, s.config.gen.width as int, s.config.gen.height as int)
    &&& vis_wf(&s.vis)
    &&& s.vis.width == s.config.gen.width
    &&& s.vis.height == s.config.gen.height
    &&& s.vis.radius == s.config.fov_radius
    &&& s.vis.light_walls == s.config.light_walls
    &&& s.entities@.len() >= 1
    &&& forall|k: int| 0 <= k < s.entities@.len() ==> entity_wf(&s.entities@[k])
    &&& 0 <= s.entities@[0].x < s.config.gen.width
    &&& 0 <= s.entities@[0].y < s.config.gen.height
}

pub open spec fn welcome_text() -> Seq<char> {
    "Welcome player! Prepare for the adventure of your life."@
}

/// The player entity as a new session creates it.
pub open spec fn is_new_player(e: Entity) -> bool {
    &&& e.glyph == '@'
    &&& e.color == white_color()
    &&& e.name@ == "go4ko"@
    &&& e.is_blocking
    &&& e.is_alive
    &&& e.fighter == Option::Some(
        Fighter { max_hp: 30, hp: 30, defense: 2, power: 5, on_death: DeathCallback::Player },
    )
}

/// Whether `a` is one of the four movement intentions.
pub open spec fn is_move(a: IntendedAction) -> bool {
    a == IntendedAction::MoveUp || a == IntendedAction::MoveDown || a == IntendedAction::MoveLeft
        || a == IntendedAction::MoveRight
}

pub open spec fn move_dx(a: IntendedAction) -> int {
    match a {
        IntendedAction::MoveLeft => -1,
        IntendedAction::MoveRight => 1,
        _ => 0,
    }
}

pub open spec fn move_dy(a: IntendedAction) -> int {
    match a {
        IntendedAction::MoveUp => -1,
        IntendedAction::MoveDown => 1,
        _ => 0,
    }
}

/// The transition table of one tick from a running session: `Exit` ends the
/// session; the display toggle and an idle or unrecognized input consume no
/// turn and change nothing else; a movement intention, with the player
/// alive, resolves as a move or attack and consumes the turn exactly when
/// that resolution did something, recomputing visibility then; with the
/// player dead it is ignored.
pub open spec fn step_running_rel(
    s0: GameSession,
    s1: GameSession,
    action: IntendedAction,
    r: StepResult,
) -> bool {
    if action == IntendedAction::Exit {
        &&& r.exited && !r.took_turn
        &&& s1 == (GameSession { state: EngineState::Exited, ..s0 })
    } else if action == IntendedAction::ToggleDisplayMode {
        &&& !r.exited && !r.took_turn
        &&& s1 == (GameSession { display_toggle: !s0.display_toggle, ..s0 })
    } else if is_move(action) {
        &&& !r.exited
        &&& s1.state == EngineState::Running
        &&& s1.display_toggle == s0.display_toggle
        &&& s1.config == s0.config
        &&& s1.rooms == s0.rooms
        &&& (!s0.entities@[0].is_alive ==> s1 == s0 && !r.took_turn)
        &&& (s0.entities@[0].is_alive ==> {
            &&& move_by_rel(
                &s0.game.maze,
                s0.entities@,
                s1.entities@,
                s0.game.messages@,
                s1.game.messages@,
                0,
                move_dx(action),
                move_dy(action),
                s0.config.gen.width as int,
                s0.config.gen.height as int,
                r.took_turn,
            )
            &&& (!r.took_turn ==> s1.vis == s0.vis && s1.game.maze == s0.game.maze)
            &&& (r.took_turn ==> vis_update_rel(
                s0.vis,
                s1.vis,
                s0.game.maze,
                s1.game.maze,
                s1.entities@[0].x as int,
                s1.entities@[0].y as int,
            ))
        })
    } else {
        // an idle or unrecognized input
        &&& !r.exited && !r.took_turn
        &&& s1 == s0
    }
}

/// One tick: consume `action` per the transition table. An exited session
/// is terminal: nothing changes and every further tick keeps reporting the
/// exit.
pub fn step(s: &mut GameSession, action: IntendedAction) -> (r: StepResult)
    requires
        session_wf(old(s)),
    ensures
        session_wf(final(s)),
        old(s).state == EngineState::Exited ==> *final(s) == *old(s) && !r.took_turn && r.exited,
        old(s).state == EngineState::Running ==> step_running_rel(*old(s), *final(s), action, r),
        r.exited == (final(s).state == EngineState::Exited),
{
    match s.state {
        EngineState::Exited => StepResult { took_turn: false, exited: true },
        EngineState::Running => {
            match action {
                IntendedAction::Exit => {
                    s.state = EngineState::Exited;
                    StepResult { took_turn: false, exited: true }
                },
                IntendedAction::ToggleDisplayMode => {
                    s.display_toggle = !s.display_toggle;
                    StepResult { took_turn: false, exited: false }
                },
                IntendedAction::Idle => StepResult { took_turn: false, exited: false },
                IntendedAction::MoveUp => do_move(s, 0, -1, Ghost(action)),
                IntendedAction::MoveDown => do_move(s, 0, 1, Ghost(action)),
                IntendedAction::MoveLeft => do_move(s, -1, 0, Ghost(action)),
                IntendedAction::MoveRight => do_move(s, 1, 0, Ghost(action)),
            }
        },
    }
}

/// Resolve one movement intention for the player.
fn do_move(s: &mut GameSession, dx: i32, dy: i32, action: Ghost<IntendedAction>) -> (r: StepResult)
    requires
        session_wf(old(s)),
        old(s).state == EngineState::Running,
        is_move(action@),
        dx == move_dx(action@),
        dy == move_dy(action@),
    ensures
        session_wf(final(s)),
        step_running_rel(*old(s), *final(s), action@, r),
        final(s).state == EngineState::Running,
        !r.exited,
{
    let alive = {
        let p = &s.entities[PLAYER];
        p.is_alive
    };
    if !alive {
        return StepResult { took_turn: false, exited: false };
    }
    let width = s.config.gen.width;
    let height = s.config.gen.height;
    let took = Entity::move_by(
        &s.game.maze,
        &mut s.entities,
        &mut s.game.messages,
        PLAYER,
        dx,
        dy,
        width,
        height,
    );
    proof {
        let tx = old(s).entities@[0].x + dx;
        let ty = old(s).entities@[0].y + dy;
        if !(!(0 <= tx < width && 0 <= ty < height) || crate::maze::tile_at(
            &old(s).game.maze,
            tx as int,
            ty as int,
        ).blocked) {
            lemma_target_from_props(old(s).entities@, 0, tx as int, ty as int, 0);
        }
    }
    if took {
        let (px, py) = {
            let p = &s.entities[PLAYER];
            (p.x, p.y)
        };
        s.vis.update(&mut s.game.maze, px, py);
        StepResult { took_turn: true, exited: false }
    } else {
        StepResult { took_turn: false, exited: false }
    }
}

/// Build a complete session: the player, the generated maze with its rooms
/// and monsters, a welcome message, and a freshly computed field of view
/// around wherever the player starts.
pub fn generate_session(config: GameConfig, seed: u64) -> (s: GameSession)
    requires
        game_config_wf(config),
    ensures
        session_wf(&s),
        s.config == config,
        s.state == EngineState::Running,
        !s.display_toggle,
        s.rooms@.len() <= config.gen.max_rooms,
        rooms_disjoint(s.rooms@),
        forall|i: int|
            0 <= i < s.rooms@.len() ==> room_in_bounds(
                #[trigger] s.rooms@[i],
                config.gen.width as int,
                config.gen.height as int,
            ) && config.gen.room_min_size <= s.rooms@[i].x2 - s.rooms@[i].x1
                <= config.gen.room_max_size && config.gen.room_min_size <= s.rooms@[i].y2
                - s.rooms@[i].y1 <= config.gen.room_max_size,
        1 <= s.entities@.len(),
        s.entities@.len() <= 1 + config.gen.max_monsters_per_room * s.rooms@.len(),
        is_new_player(s.entities@[0]),
        s.rooms@.len() > 0 ==> s.entities@[0].x == (s.rooms@[0].x1 + s.rooms@[0].x2) / 2
            && s.entities@[0].y == (s.rooms@[0].y1 + s.rooms@[0].y2) / 2,
        s.rooms@.len() == 0 ==> s.entities@[0].x == 0 && s.entities@[0].y == 0,
        forall|k: int|
            1 <= k < s.entities@.len() ==> is_seed_monster(#[trigger] s.entities@[k], s.rooms@),
        s.game.messages@ == seq![(welcome_text(), red_color())],
        vis_at(&s.vis, s.entities@[0].x as int, s.entities@[0].y as int),
{
    let mut player = Entity::new(0, 0, '@', white(), "go4ko", true);
    player.is_alive = true;
    player.fighter = Option::Some(
        Fighter { max_hp: 30, hp: 30, defense: 2, power: 5, on_death: DeathCallback::Player },
    );
    let mut entities: Vec<Entity> = Vec::new();
    entities.push(player);
    let mut rng = rng_from_seed(seed);
    let build = create_maze(&config.gen, &mut rng, &mut entities);
    let mut game = Game { maze: build.maze, messages: Messages::new() };
    game.messages.add(
        String::from_str("Welcome player! Prepare for the adventure of your life."),
        red(),
    );
    proof {
        assert(game.messages@ =~= seq![(welcome_text(), red_color())]);
    }
    let mut vis = VisibilityField::new(
        config.gen.width,
        config.gen.height,
        config.fov_radius,
        config.light_walls,
    );
    let (px, py) = {
        let p = &entities[PLAYER];
        (p.x, p.y)
    };
    vis.update(&mut game.maze, px, py);
    GameSession {
        config,
        game,
        entities,
        rooms: build.rooms,
        vis,
        state: EngineState::Running,
        display_toggle: false,
    }
}

impl GameSession {
    /// The player's current and maximum hit points, zero when it has no
    /// combat record.
    pub fn player_hp(&self) -> (r: (i32, i32))
        requires
            session_wf(self),
        ensures
            match self.entities@[0].fighter {
                Option::Some(f) => r.0 == f.hp && r.1 == f.max_hp,
                Option::None => r.0 == 0 && r.1 == 0,
            },
    {
        let p = &self.entities[PLAYER];
        match p.fighter {
            Option::Some(f) => (f.hp, f.max_hp),
            Option::None => (0, 0),
        }
    }
}

} // verus!
