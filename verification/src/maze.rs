//! The tile grid and its generation: rectangular rooms carved into a fully
//! walled grid, connected by L-shaped tunnels, each room seeded with a
//! random handful of monsters.

use crate::color::{darker_green, darker_green_color, desaturated_green, desaturated_green_color};
use crate::entity::{entity_wf, DeathCallback, Entity, Fighter};
use crate::rng::{gen_range_i32, gen_ratio};
use vstd::prelude::*;

verus! {

/// One grid cell. A freshly made grid is all walls; generation carves rooms
/// and tunnels into open floor. `is_explored` is the only field that changes
/// after generation, and it only ever goes from `false` to `true`.
#[derive(Clone, Copy, Debug, PartialEq, Eq, Structural)]
pub struct Tile {
    pub blocked: bool,
    pub block_sight: bool,
    pub is_explored: bool,
}

/// The grid: `maze[x][y]` is the tile at column `x`, row `y`.
pub type Maze = Vec<Vec<Tile>>;

impl Tile {
    /// Open floor: walkable and transparent.
    pub fn empty() -> (t: Tile)
        ensures
            t == tile_empty(),
    {
        Tile { blocked: false, block_sight: false, is_explored: false }
    }

    /// A wall: impassable and opaque.
    pub fn wall() -> (t: Tile)
        ensures
            t == tile_wall(),
    {
        Tile { blocked: true, block_sight: true, is_explored: false }
    }
}

/// Open floor, as a specification value.
pub open spec fn tile_empty() -> Tile {
    Tile { blocked: false, block_sight: false, is_explored: false }
}

/// A wall, as a specification value.
pub open spec fn tile_wall() -> Tile {
    Tile { blocked: true, block_sight: true, is_explored: false }
}

/// The tile at column `x`, row `y`.
pub open spec fn tile_at(m: &Maze, x: int, y: int) -> Tile {
    m@[x]@[y]
}

/// The grid is a full `width` x `height` rectangle.
pub open spec fn maze_wf(m: &Maze, width: int, height: int) -> bool {
    &&& m@.len() == width
    &&& forall|x: int| 0 <= x < width ==> (#[trigger] m@[x])@.len() == height
}

/// A generation-time rectangle. `x1`/`y1` is the top-left corner and
/// `x2`/`y2` the bottom-right one; the walkable interior excludes the border.
#[derive(Clone, Copy, Debug, PartialEq, Eq, Structural)]
pub struct Room {
    pub x1: i32,
    pub y1: i32,
    pub x2: i32,
    pub y2: i32,
}

/// Two rooms intersect when their rectangles overlap or touch.
pub open spec fn rooms_intersect(a: Room, b: Room) -> bool {
    a.x1 <= b.x2 && a.x2 >= b.x1 && a.y1 <= b.y2 && a.y2 >= b.y1
}

/// `(x, y)` lies strictly inside `r`, off its border.
pub open spec fn room_interior(r: Room, x: int, y: int) -> bool {
    r.x1 < x < r.x2 && r.y1 < y < r.y2
}

/// The whole rectangle, border included, lies on the grid.
pub open spec fn room_in_bounds(r: Room, width: int, height: int) -> bool {
    0 <= r.x1 <= r.x2 < width && 0 <= r.y1 <= r.y2 < height
}

impl Room {
    pub fn new(x: i32, y: i32, w: i32, h: i32) -> (r: Room)
        requires
            0 <= x,
            0 <= y,
            0 <= w,
            0 <= h,
            x + w <= i32::MAX,
            y + h <= i32::MAX,
        ensures
            r.x1 == x && r.y1 == y && r.x2 == x + w && r.y2 == y + h,
    {
        Room { x1: x, y1: y, x2: x + w, y2: y + h }
    }

    /// The midpoint of the rectangle, rounded toward the top-left.
    pub fn center(&self) -> (c: (i32, i32))
        requires
            0 <= self.x1 <= self.x2,
            0 <= self.y1 <= self.y2,
            self.x1 + self.x2 <= i32::MAX,
            self.y1 + self.y2 <= i32::MAX,
        ensures
            c.0 == (self.x1 + self.x2) / 2,
            c.1 == (self.y1 + self.y2) / 2,
            self.x1 <= c.0 <= self.x2,
            self.y1 <= c.1 <= self.y2,
    {
        let center_x = (self.x1 + self.x2) / 2;
        let center_y = (self.y1 + self.y2) / 2;
        (center_x, center_y)
    }

    /// Whether the two rectangles overlap, edge contact included.
    pub fn intersects_with(&self, other: &Room) -> (r: bool)
        ensures
            r == rooms_intersect(*self, *other),
    {
        (self.x1 <= other.x2) && (self.x2 >= other.x1) && (self.y1 <= other.y2) && (self.y2
            >= other.y1)
    }
}

/// Carve the interior of `room` to open floor, leaving its border walls.
pub fn create_room(maze: &mut Maze, room: Room, width: i32, height: i32)
    requires
        maze_wf(old(maze), width as int, height as int),
        room_in_bounds(room, width as int, height as int),
    ensures
        maze_wf(final(maze), width as int, height as int),
        forall|px: int, py: int|
            0 <= px < width && 0 <= py < height ==> #[trigger] tile_at(final(maze), px, py) == (if room_interior(
                room,
                px,
                py,
            ) {
                tile_empty()
            } else {
                tile_at(old(maze), px, py)
            }),
{
    let ghost m0 = *maze;
    let mut x = room.x1 + 1;
    while x < room.x2
        invariant
            maze_wf(maze, width as int, height as int),
            room_in_bounds(room, width as int, height as int),
            room.x1 + 1 <= x <= room.x2 || x == room.x1 + 1,
            forall|px: int, py: int|
                0 <= px < width && 0 <= py < height ==> #[trigger] tile_at(maze, px, py) == (if room_interior(
                    room,
                    px,
                    py,
                ) && px < x {
                    tile_empty()
                } else {
                    tile_at(&m0, px, py)
                }),
        decreases room.x2 - x,
    {
        let mut y = room.y1 + 1;
        while y < room.y2
            invariant
                maze_wf(maze, width as int, height as int),
                room_in_bounds(room, width as int, height as int),
                room.x1 < x < room.x2,
                room.y1 + 1 <= y <= room.y2 || y == room.y1 + 1,
                forall|px: int, py: int|
                    0 <= px < width && 0 <= py < height ==> #[trigger] tile_at(maze, px, py) == (
                    if room_interior(room, px, py) && (px < x || (px == x && py < y)) {
                        tile_empty()
                    } else {
                        tile_at(&m0, px, py)
                    }),
            decreases room.y2 - y,
        {
            let ghost m1 = *maze;
            let row = &mut maze[x as usize];
            row.set(y as usize, Tile::empty());
            proof {
                assert(forall|px: int, py: int|
                    0 <= px < width && 0 <= py < height && !(px == x && py == y)
                        ==> #[trigger] tile_at(maze, px, py) == tile_at(&m1, px, py));
                assert(tile_at(maze, x as int, y as int) == tile_empty());
            }
            y = y + 1;
        }
        x = x + 1;
    }
}

/// One straight stretch of carved corridor: a single row segment
/// (`horizontal`) or a single column segment. `a` and `b` bound the varying
/// coordinate (half-open, from the smaller toward the larger); `c` is the
/// fixed one.
#[derive(Clone, Copy, Debug, PartialEq, Eq, Structural)]
pub struct Tunnel {
    pub horizontal: bool,
    pub a: i32,
    pub b: i32,
    pub c: i32,
}

pub open spec fn imin(a: int, b: int) -> int {
    if a <= b {
        a
    } else {
        b
    }
}

pub open spec fn imax(a: int, b: int) -> int {
    if a >= b {
        a
    } else {
        b
    }
}

/// `(x, y)` is one of the cells the tunnel carves.
pub open spec fn tunnel_covers(t: Tunnel, x: int, y: int) -> bool {
    if t.horizontal {
        y == t.c && imin(t.a as int, t.b as int) <= x < imax(t.a as int, t.b as int)
    } else {
        x == t.c && imin(t.a as int, t.b as int) <= y < imax(t.a as int, t.b as int)
    }
}

/// The cells the tunnel carves all lie on the grid.
pub open spec fn tunnel_in_bounds(t: Tunnel, width: int, height: int) -> bool {
    if t.horizontal {
        (t.a != t.b ==> 0 <= imin(t.a as int, t.b as int) && imax(t.a as int, t.b as int) <= width
            && 0 <= t.c < height)
    } else {
        (t.a != t.b ==> 0 <= imin(t.a as int, t.b as int) && imax(t.a as int, t.b as int) <= height
            && 0 <= t.c < width)
    }
}

/// Carve one straight corridor stretch to open floor.
///
/// When `is_horizontal`, the carved cells run along row `y1` from the smaller
/// of `x1`, `x2` up to (excluding) the larger, and `y2` is unused; otherwise
/// they run along column `x1` between `y1` and `y2` the same way, and `x2` is
/// unused.
pub fn create_tunnel(maze: &mut Maze, x1: i32, x2: i32, y1: i32, y2: i32, is_horizontal: bool, width: i32, height: i32)
    requires
        maze_wf(old(maze), width as int, height as int),
        tunnel_in_bounds(
            Tunnel {
                horizontal: is_horizontal,
                a: if is_horizontal { x1 } else { y1 },
                b: if is_horizontal { x2 } else { y2 },
                c: if is_horizontal { y1 } else { x1 },
            },
            width as int,
            height as int,
        ),
    ensures
        maze_wf(final(maze), width as int, height as int),
        forall|px: int, py: int|
            0 <= px < width && 0 <= py < height ==> #[trigger] tile_at(final(maze), px, py) == (if tunnel_covers(
                Tunnel {
                    horizontal: is_horizontal,
                    a: if is_horizontal { x1 } else { y1 },
                    b: if is_horizontal { x2 } else { y2 },
                    c: if is_horizontal { y1 } else { x1 },
                },
                px,
                py,
            ) {
                tile_empty()
            } else {
                tile_at(old(maze), px, py)
            }),
{
    let ghost m0 = *maze;
    let ghost t = Tunnel {
        horizontal: is_horizontal,
        a: if is_horizontal { x1 } else { y1 },
        b: if is_horizontal { x2 } else { y2 },
        c: if is_horizontal { y1 } else { x1 },
    };
    if is_horizontal {
        let lo = if x1 <= x2 {
            x1
        } else {
            x2
        };
        let hi = if x1 >= x2 {
            x1
        } else {
            x2
        };
        if lo == hi {
            return ;
        }
        let mut x = lo;
        while x < hi
            invariant
                maze_wf(maze, width as int, height as int),
                t.horizontal,
                lo == imin(t.a as int, t.b as int),
                hi == imax(t.a as int, t.b as int),
                lo < hi,
                0 <= lo,
                hi <= width,
                0 <= t.c < height,
                t.c == y1,
                lo <= x <= hi,
                forall|px: int, py: int|
                    0 <= px < width && 0 <= py < height ==> #[trigger] tile_at(maze, px, py) == (
                    if tunnel_covers(t, px, py) && px < x {
                        tile_empty()
                    } else {
                        tile_at(&m0, px, py)
                    }),
            decreases hi - x,
        {
            let ghost m1 = *maze;
            let row = &mut maze[x as usize];
            row.set(y1 as usize, Tile::empty());
            proof {
                assert(forall|px: int, py: int|
                    0 <= px < width && 0 <= py < height && !(px == x && py == y1)
                        ==> #[trigger] tile_at(maze, px, py) == tile_at(&m1, px, py));
                assert(tile_at(maze, x as int, y1 as int) == tile_empty());
            }
            x = x + 1;
        }
    } else {
        let lo = if y1 <= y2 {
            y1
        } else {
            y2
        };
        let hi = if y1 >= y2 {
            y1
        } else {
            y2
        };
        if lo == hi {
            return ;
        }
        let mut y = lo;
        while y < hi
            invariant
                maze_wf(maze, width as int, height as int),
                !t.horizontal,
                lo == imin(t.a as int, t.b as int),
                hi == imax(t.a as int, t.b as int),
                lo < hi,
                0 <= lo,
                hi <= height,
                0 <= t.c < width,
                t.c == x1,
                lo <= y <= hi,
                forall|px: int, py: int|
                    0 <= px < width && 0 <= py < height ==> #[trigger] tile_at(maze, px, py) == (
                    if tunnel_covers(t, px, py) && py < y {
                        tile_empty()
                    } else {
                        tile_at(&m0, px, py)
                    }),
            decreases hi - y,
        {
            let ghost m1 = *maze;
            let row = &mut maze[x1 as usize];
            row.set(y as usize, Tile::empty());
            proof {
                assert(forall|px: int, py: int|
                    0 <= px < width && 0 <= py < height && !(px == x1 && py == y)
                        ==> #[trigger] tile_at(maze, px, py) == tile_at(&m1, px, py));
                assert(tile_at(maze, x1 as int, y as int) == tile_empty());
            }
            y = y + 1;
        }
    }
}

/// Generation parameters, fixed for the engine's lifetime.
#[derive(Clone, Copy, Debug, PartialEq, Eq, Structural)]
pub struct GenConfig {
    pub width: i32,
    pub height: i32,
    pub max_rooms: u32,
    pub room_min_size: i32,
    pub room_max_size: i32,
    pub max_monsters_per_room: u32,
}

/// Parameter bounds under which generation is proved safe: the grid is a
/// modest rectangle and every candidate room, border included, fits on it
/// with a nonempty interior.
pub open spec fn gen_config_wf(c: GenConfig) -> bool {
    &&& 1 <= c.width <= 10000
    &&& 1 <= c.height <= 10000
    &&& 2 <= c.room_min_size <= c.room_max_size
    &&& c.room_max_size < c.width
    &&& c.room_max_size < c.height
    &&& c.max_rooms <= 10000
    &&& c.max_monsters_per_room <= 1000
}

/// The combat record every freshly seeded orc carries.
pub open spec fn orc_fighter() -> Fighter {
    Fighter { max_hp: 10, hp: 10, defense: 0, power: 3, on_death: DeathCallback::Monster }
}

/// The combat record every freshly seeded troll carries.
pub open spec fn troll_fighter() -> Fighter {
    Fighter { max_hp: 16, hp: 16, defense: 1, power: 4, on_death: DeathCallback::Monster }
}

pub open spec fn is_orc(e: Entity) -> bool {
    e.glyph == 'o' && e.color == desaturated_green_color() && e.name@ == "orc"@ && e.fighter
        == Option::Some(orc_fighter())
}

pub open spec fn is_troll(e: Entity) -> bool {
    e.glyph == 'T' && e.color == darker_green_color() && e.name@ == "troll"@ && e.fighter
        == Option::Some(troll_fighter())
}

/// A monster as generation leaves it: alive, blocking, one of the two
/// archetypes, standing inside one of the accepted rooms.
pub open spec fn is_seed_monster(e: Entity, rooms: Seq<Room>) -> bool {
    &&& exists|j: int| 0 <= j < rooms.len() && room_interior(#[trigger] rooms[j], e.x as int, e.y as int)
    &&& e.is_alive
    &&& e.is_blocking
    &&& is_orc(e) || is_troll(e)
}

/// No two accepted rooms overlap or touch.
pub open spec fn rooms_disjoint(rooms: Seq<Room>) -> bool {
    forall|i: int, j: int|
        0 <= i < j < rooms.len() ==> !rooms_intersect(#[trigger] rooms[i], #[trigger] rooms[j])
}

/// `(x, y)` was carved open: it is inside some accepted room, or on some
/// tunnel.
pub open spec fn carved(rooms: Seq<Room>, tunnels: Seq<Tunnel>, x: int, y: int) -> bool {
    (exists|i: int| 0 <= i < rooms.len() && room_interior(#[trigger] rooms[i], x, y)) || (exists|
        j: int,
    | 0 <= j < tunnels.len() && tunnel_covers(#[trigger] tunnels[j], x, y))
}

proof fn lemma_carved_push_room(rooms: Seq<Room>, tunnels: Seq<Tunnel>, r: Room)
    ensures
        forall|x: int, y: int|
            #[trigger] carved(rooms.push(r), tunnels, x, y) <==> (carved(rooms, tunnels, x, y)
                || room_interior(r, x, y)),
{
    assert forall|x: int, y: int|
        #[trigger] carved(rooms.push(r), tunnels, x, y) <==> (carved(rooms, tunnels, x, y)
            || room_interior(r, x, y)) by {
        if carved(rooms.push(r), tunnels, x, y) {
            if exists|i: int| 0 <= i < rooms.push(r).len() && room_interior(
                #[trigger] rooms.push(r)[i],
                x,
                y,
            ) {
                let i = choose|i: int|
                    0 <= i < rooms.push(r).len() && room_interior(#[trigger] rooms.push(r)[i], x, y);
                if i < rooms.len() {
                    assert(rooms.push(r)[i] == rooms[i]);
                } else {
                    assert(rooms.push(r)[i] == r);
                }
            }
        }
        if carved(rooms, tunnels, x, y) {
            if exists|i: int| 0 <= i < rooms.len() && room_interior(#[trigger] rooms[i], x, y) {
                let i = choose|i: int| 0 <= i < rooms.len() && room_interior(#[trigger] rooms[i], x, y);
                assert(rooms.push(r)[i] == rooms[i]);
            }
        }
        if room_interior(r, x, y) {
            assert(rooms.push(r)[rooms.len() as int] == r);
        }
    }
}

proof fn lemma_carved_push_tunnel(rooms: Seq<Room>, tunnels: Seq<Tunnel>, t: Tunnel)
    ensures
        forall|x: int, y: int|
            #[trigger] carved(rooms, tunnels.push(t), x, y) <==> (carved(rooms, tunnels, x, y)
                || tunnel_covers(t, x, y)),
{
    assert forall|x: int, y: int|
        #[trigger] carved(rooms, tunnels.push(t), x, y) <==> (carved(rooms, tunnels, x, y)
            || tunnel_covers(t, x, y)) by {
        if carved(rooms, tunnels.push(t), x, y) {
            if exists|j: int| 0 <= j < tunnels.push(t).len() && tunnel_covers(
                #[trigger] tunnels.push(t)[j],
                x,
                y,
            ) {
                let j = choose|j: int|
                    0 <= j < tunnels.push(t).len() && tunnel_covers(#[trigger] tunnels.push(t)[j], x, y);
                if j < tunnels.len() {
                    assert(tunnels.push(t)[j] == tunnels[j]);
                } else {
                    assert(tunnels.push(t)[j] == t);
                }
            }
        }
        if carved(rooms, tunnels, x, y) {
            if exists|j: int| 0 <= j < tunnels.len() && tunnel_covers(#[trigger] tunnels[j], x, y) {
                let j = choose|j: int| 0 <= j < tunnels.len() && tunnel_covers(#[trigger] tunnels[j], x, y);
                assert(tunnels.push(t)[j] == tunnels[j]);
            }
        }
        if tunnel_covers(t, x, y) {
            assert(tunnels.push(t)[tunnels.len() as int] == t);
        }
    }
}

/// Seed `room` with a random count of monsters, each at a random interior
/// cell: mostly orcs, sometimes trolls. Everything already in `entities`
/// stays untouched.
pub fn create_monsters(
    room: Room,
    entities: &mut Vec<Entity>,
    rng: &mut rand::rngs::StdRng,
    max_monsters: u32,
)
    requires
        room.x1 + 1 < room.x2,
        room.y1 + 1 < room.y2,
        0 <= room.x1,
        0 <= room.y1,
        room.x2 <= 10000,
        room.y2 <= 10000,
        max_monsters <= 1000,
    ensures
        old(entities)@.len() <= final(entities)@.len() <= old(entities)@.len() + max_monsters,
        forall|k: int| 0 <= k < old(entities)@.len() ==> final(entities)@[k] == old(entities)@[k],
        forall|k: int|
            old(entities)@.len() <= k < final(entities)@.len() ==> {
                let e = #[trigger] final(entities)@[k];
                &&& room_interior(room, e.x as int, e.y as int)
                &&& e.is_alive
                &&& e.is_blocking
                &&& is_orc(e) || is_troll(e)
            },
{
    let ghost n0 = entities@.len();
    let monsters_count = gen_range_i32(rng, 0, max_monsters as i32 + 1);
    let mut i: i32 = 0;
    while i < monsters_count
        invariant
            0 <= i <= monsters_count || (monsters_count < 0 && i == 0),
            monsters_count <= max_monsters <= 1000,
            room.x1 + 1 < room.x2,
            room.y1 + 1 < room.y2,
            n0 <= entities@.len(),
            entities@.len() <= n0 + (if i >= 0 { i as int } else { 0 }),
            forall|k: int| 0 <= k < n0 ==> entities@[k] == old(entities)@[k],
            forall|k: int|
                n0 <= k < entities@.len() ==> {
                    let e = #[trigger] entities@[k];
                    &&& room_interior(room, e.x as int, e.y as int)
                    &&& e.is_alive
                    &&& e.is_blocking
                    &&& is_orc(e) || is_troll(e)
                },
        decreases monsters_count - i,
    {
        let x = gen_range_i32(rng, room.x1 + 1, room.x2);
        let y = gen_range_i32(rng, room.y1 + 1, room.y2);
        let mut monster = if gen_ratio(rng, 80, 100) {
            let mut m = Entity::new(x, y, 'o', desaturated_green(), "orc", true);
            m.fighter = Option::Some(
                Fighter { max_hp: 10, hp: 10, defense: 0, power: 3, on_death: DeathCallback::Monster },
            );
            m
        } else {
            let mut m = Entity::new(x, y, 'T', darker_green(), "troll", true);
            m.fighter = Option::Some(
                Fighter { max_hp: 16, hp: 16, defense: 1, power: 4, on_death: DeathCallback::Monster },
            );
            m
        };
        monster.is_alive = true;
        entities.push(monster);
        i = i + 1;
    }
}

/// Everything one generation run produces: the carved grid together with the
/// accepted rooms and the tunnel stretches that were carved into it.
pub struct MazeBuild {
    pub maze: Maze,
    pub rooms: Vec<Room>,
    pub tunnels: Vec<Tunnel>,
}

/// A fresh grid of nothing but walls.
fn new_walled_maze(width: i32, height: i32) -> (m: Maze)
    requires
        1 <= width <= 10000,
        1 <= height <= 10000,
    ensures
        maze_wf(&m, width as int, height as int),
        forall|x: int, y: int|
            0 <= x < width && 0 <= y < height ==> #[trigger] tile_at(&m, x, y) == tile_wall(),
{
    let mut m: Maze = Vec::new();
    let mut x: i32 = 0;
    while x < width
        invariant
            0 <= x <= width,
            1 <= height <= 10000,
            m@.len() == x,
            forall|i: int| 0 <= i < x ==> (#[trigger] m@[i])@.len() == height,
            forall|i: int, j: int|
                0 <= i < x && 0 <= j < height ==> #[trigger] tile_at(&m, i, j) == tile_wall(),
        decreases width - x,
    {
        let mut col: Vec<Tile> = Vec::new();
        let mut y: i32 = 0;
        while y < height
            invariant
                0 <= y <= height,
                col@.len() == y,
                forall|j: int| 0 <= j < y ==> col@[j] == tile_wall(),
            decreases height - y,
        {
            col.push(Tile::wall());
            y = y + 1;
        }
        let ghost m_pre = m;
        m.push(col);
        proof {
            assert forall|i: int, j: int|
                0 <= i < x + 1 && 0 <= j < height implies #[trigger] tile_at(&m, i, j)
                == tile_wall() by {
                if i < x {
                    assert(m@[i] == m_pre@[i]);
                    assert(tile_at(&m, i, j) == tile_at(&m_pre, i, j));
                } else {
                    assert(m@[i]@ == col@);
                }
            }
        }
        x = x + 1;
    }
    m
}

/// Generate the whole maze: up to `max_rooms` random room candidates, each
/// accepted only when it overlaps no earlier room; every accepted room is
/// carved, seeded with monsters, and (after the first, which receives the
/// player at its center) connected to the previous room's center by an
/// L-shaped tunnel whose bend order is a coin toss.
///
/// The returned build says exactly what was carved: a cell is open floor
/// precisely when it lies inside an accepted room or on a tunnel; every
/// other cell is still a wall.
pub fn create_maze(cfg: &GenConfig, rng: &mut rand::rngs::StdRng, entities: &mut Vec<Entity>) -> (b:
    MazeBuild)
    requires
        gen_config_wf(*cfg),
        1 <= old(entities)@.len(),
        forall|k: int| 0 <= k < old(entities)@.len() ==> entity_wf(&old(entities)@[k]),
    ensures
        maze_wf(&b.maze, cfg.width as int, cfg.height as int),
        b.rooms@.len() <= cfg.max_rooms,
        rooms_disjoint(b.rooms@),
        forall|i: int|
            0 <= i < b.rooms@.len() ==> room_in_bounds(
                #[trigger] b.rooms@[i],
                cfg.width as int,
                cfg.height as int,
            ) && cfg.room_min_size <= b.rooms@[i].x2 - b.rooms@[i].x1 <= cfg.room_max_size
                && cfg.room_min_size <= b.rooms@[i].y2 - b.rooms@[i].y1 <= cfg.room_max_size,
        forall|x: int, y: int|
            0 <= x < cfg.width && 0 <= y < cfg.height ==> #[trigger] tile_at(&b.maze, x, y) == (
            if carved(b.rooms@, b.tunnels@, x, y) {
                tile_empty()
            } else {
                tile_wall()
            }),
        old(entities)@.len() <= final(entities)@.len(),
        final(entities)@.len() <= old(entities)@.len() + cfg.max_monsters_per_room
            * b.rooms@.len(),
        forall|k: int|
            1 <= k < old(entities)@.len() ==> #[trigger] final(entities)@[k] == old(entities)@[k],
        b.rooms@.len() == 0 ==> final(entities)@[0] == old(entities)@[0],
        b.rooms@.len() > 0 ==> {
            let p = final(entities)@[0];
            let q = old(entities)@[0];
            &&& p.x == (b.rooms@[0].x1 + b.rooms@[0].x2) / 2
            &&& p.y == (b.rooms@[0].y1 + b.rooms@[0].y2) / 2
            &&& p.glyph == q.glyph && p.color == q.color && p.name == q.name
            &&& p.is_blocking == q.is_blocking && p.is_alive == q.is_alive && p.fighter
                == q.fighter
        },
        forall|k: int|
            old(entities)@.len() <= k < final(entities)@.len() ==> is_seed_monster(
                #[trigger] final(entities)@[k],
                b.rooms@,
            ),
        forall|k: int| 0 <= k < final(entities)@.len() ==> entity_wf(&final(entities)@[k]),
{
    let width = cfg.width;
    let height = cfg.height;
    let mut maze = new_walled_maze(width, height);
    let mut rooms: Vec<Room> = Vec::new();
    let mut tunnels: Vec<Tunnel> = Vec::new();
    let ghost n0 = entities@.len();
    let ghost es0 = entities@;
    proof {
        assert forall|x: int, y: int|
            0 <= x < width && 0 <= y < height implies #[trigger] tile_at(&maze, x, y) == (
        if carved(rooms@, tunnels@, x, y) {
            tile_empty()
        } else {
            tile_wall()
        }) by {
            assert(!carved(rooms@, tunnels@, x, y));
        }
    }
    let mut attempt: u32 = 0;
    while attempt < cfg.max_rooms
        invariant
            gen_config_wf(*cfg),
            width == cfg.width,
            height == cfg.height,
            attempt <= cfg.max_rooms,
            n0 == es0.len(),
            1 <= n0,
            forall|k: int| 0 <= k < n0 ==> entity_wf(&es0[k]),
            maze_wf(&maze, width as int, height as int),
            rooms@.len() <= attempt,
            rooms_disjoint(rooms@),
            forall|i: int|
                0 <= i < rooms@.len() ==> room_in_bounds(
                    #[trigger] rooms@[i],
                    width as int,
                    height as int,
                ) && cfg.room_min_size <= rooms@[i].x2 - rooms@[i].x1 <= cfg.room_max_size
                    && cfg.room_min_size <= rooms@[i].y2 - rooms@[i].y1 <= cfg.room_max_size,
            forall|x: int, y: int|
                0 <= x < width && 0 <= y < height ==> #[trigger] tile_at(&maze, x, y) == (
                if carved(rooms@, tunnels@, x, y) {
                    tile_empty()
                } else {
                    tile_wall()
                }),
            n0 <= entities@.len(),
            entities@.len() <= n0 + cfg.max_monsters_per_room * rooms@.len(),
            forall|k: int| 1 <= k < n0 ==> #[trigger] entities@[k] == es0[k],
            rooms@.len() == 0 ==> entities@[0] == es0[0],
            rooms@.len() > 0 ==> {
                let p = entities@[0];
                let q = es0[0];
                &&& p.x == (rooms@[0].x1 + rooms@[0].x2) / 2
                &&& p.y == (rooms@[0].y1 + rooms@[0].y2) / 2
                &&& p.glyph == q.glyph && p.color == q.color && p.name == q.name
                &&& p.is_blocking == q.is_blocking && p.is_alive == q.is_alive && p.fighter
                    == q.fighter
            },
            forall|k: int|
                n0 <= k < entities@.len() ==> is_seed_monster(#[trigger] entities@[k], rooms@),
            forall|k: int| 0 <= k < entities@.len() ==> entity_wf(&entities@[k]),
        decreases cfg.max_rooms - attempt,
    {
        let w = gen_range_i32(rng, cfg.room_min_size, cfg.room_max_size + 1);
        let h = gen_range_i32(rng, cfg.room_min_size, cfg.room_max_size + 1);
        let x = gen_range_i32(rng, 0, width - w);
        let y = gen_range_i32(rng, 0, height - h);
        let room = Room::new(x, y, w, h);
        let mut failed = false;
        let mut ri: usize = 0;
        while ri < rooms.len()
            invariant
                ri <= rooms@.len(),
                !failed ==> forall|i: int|
                    0 <= i < ri ==> !rooms_intersect(room, #[trigger] rooms@[i]),
            decreases rooms@.len() - ri,
        {
            if room.intersects_with(&rooms[ri]) {
                failed = true;
            }
            if failed {
                ri = rooms.len();
            } else {
                ri = ri + 1;
            }
        }
        if !failed {
            let ghost rooms_pre = rooms@;
            let ghost tunnels_pre = tunnels@;
            let ghost es_pre = entities@;
            create_room(&mut maze, room, width, height);
            create_monsters(room, entities, rng, cfg.max_monsters_per_room);
            let (cx, cy) = room.center();
            if rooms.len() == 0 {
                let e = &mut entities[0];
                e.set_pos(cx, cy);
            } else {
                let (pcx, pcy) = {
                    let prev = &rooms[rooms.len() - 1];
                    prev.center()
                };
                if gen_ratio(rng, 1, 2) {
                    create_tunnel(&mut maze, pcx, cx, pcy, 0, true, width, height);
                    proof {
                        lemma_carved_push_tunnel(
                            rooms@,
                            tunnels@,
                            Tunnel { horizontal: true, a: pcx, b: cx, c: pcy },
                        );
                    }
                    tunnels.push(Tunnel { horizontal: true, a: pcx, b: cx, c: pcy });
                    create_tunnel(&mut maze, cx, 0, pcy, cy, false, width, height);
                    proof {
                        lemma_carved_push_tunnel(
                            rooms@,
                            tunnels@,
                            Tunnel { horizontal: false, a: pcy, b: cy, c: cx },
                        );
                    }
                    tunnels.push(Tunnel { horizontal: false, a: pcy, b: cy, c: cx });
                } else {
                    create_tunnel(&mut maze, pcx, 0, pcy, cy, false, width, height);
                    proof {
                        lemma_carved_push_tunnel(
                            rooms@,
                            tunnels@,
                            Tunnel { horizontal: false, a: pcy, b: cy, c: pcx },
                        );
                    }
                    tunnels.push(Tunnel { horizontal: false, a: pcy, b: cy, c: pcx });
                    create_tunnel(&mut maze, pcx, cx, cy, 0, true, width, height);
                    proof {
                        lemma_carved_push_tunnel(
                            rooms@,
                            tunnels@,
                            Tunnel { horizontal: true, a: pcx, b: cx, c: cy },
                        );
                    }
                    tunnels.push(Tunnel { horizontal: true, a: pcx, b: cx, c: cy });
                }
            }
            proof {
                lemma_carved_push_room(rooms@, tunnels@, room);
            }
            rooms.push(room);
            proof {
                assert forall|k: int|
                    n0 <= k < entities@.len() implies is_seed_monster(
                    #[trigger] entities@[k],
                    rooms@,
                ) by {
                    let e = entities@[k];
                    if k < es_pre.len() {
                        assert(is_seed_monster(e, rooms_pre));
                        let j = choose|j: int|
                            0 <= j < rooms_pre.len() && room_interior(
                                #[trigger] rooms_pre[j],
                                e.x as int,
                                e.y as int,
                            );
                        assert(rooms@[j] == rooms_pre[j]);
                    } else {
                        assert(room_interior(room, e.x as int, e.y as int));
                        assert(rooms@[rooms@.len() - 1] == room);
                    }
                }
                assert(entities@.len() <= n0 + cfg.max_monsters_per_room * rooms@.len()) by {
                    assert(es_pre.len() <= n0 + cfg.max_monsters_per_room * rooms_pre.len());
                    assert(entities@.len() <= es_pre.len() + cfg.max_monsters_per_room);
                    assert(cfg.max_monsters_per_room * (rooms_pre.len() + 1)
                        == cfg.max_monsters_per_room * rooms_pre.len()
                        + cfg.max_monsters_per_room) by (nonlinear_arith);
                }
            }
        }
        attempt = attempt + 1;
    }
    MazeBuild { maze, rooms, tunnels }
}

} // verus!
