use maze_core::color::white;
use maze_core::entity::Entity;
use maze_core::maze::{create_maze, GenConfig, MazeBuild, Room, Tile, Tunnel};
use rand::SeedableRng;

fn tunnel_covers_cell(t: &Tunnel, x: i32, y: i32) -> bool {
    let lo = t.a.min(t.b);
    let hi = t.a.max(t.b);
    if t.horizontal {
        y == t.c && lo <= x && x < hi
    } else {
        x == t.c && lo <= y && y < hi
    }
}

fn room_interior_cell(r: &Room, x: i32, y: i32) -> bool {
    r.x1 < x && x < r.x2 && r.y1 < y && y < r.y2
}

#[test]
fn tile_empty_is_open_floor() {
    let t = Tile::empty();
    assert!(!t.blocked);
    assert!(!t.block_sight);
    assert!(!t.is_explored);
}

#[test]
fn tile_wall_is_opaque_and_impassable() {
    let t = Tile::wall();
    assert!(t.blocked);
    assert!(t.block_sight);
    assert!(!t.is_explored);
}

#[test]
fn room_new_spans_and_center() {
    let r = Room::new(10, 8, 6, 4);
    assert_eq!(r.x1, 10);
    assert_eq!(r.y1, 8);
    assert_eq!(r.x2, 16);
    assert_eq!(r.y2, 12);
    assert_eq!(r.center(), (13, 10));
}

#[test]
fn rooms_touching_edges_count_as_intersecting() {
    let a = Room::new(0, 0, 5, 5);
    let b = Room::new(5, 5, 3, 3);
    let c = Room::new(6, 6, 3, 3);
    assert!(a.intersects_with(&b));
    assert!(b.intersects_with(&a));
    assert!(!a.intersects_with(&c));
    assert!(!c.intersects_with(&a));
}

#[test]
fn generated_rooms_are_pairwise_disjoint() {
    let cfg = GenConfig {
        width: 20,
        height: 20,
        max_rooms: 30,
        room_min_size: 4,
        room_max_size: 6,
        max_monsters_per_room: 3,
    };
    let mut rng = rand::rngs::StdRng::seed_from_u64(1234);
    let mut entities = vec![Entity::new(0, 0, '@', white(), "go4ko", true)];
    let build = create_maze(&cfg, &mut rng, &mut entities);
    for i in 0..build.rooms.len() {
        for j in 0..build.rooms.len() {
            if i != j {
                assert!(!build.rooms[i].intersects_with(&build.rooms[j]));
            }
        }
    }
}

#[test]
fn generated_tiles_are_open_exactly_where_carved() {
    let cfg = GenConfig {
        width: 20,
        height: 20,
        max_rooms: 30,
        room_min_size: 4,
        room_max_size: 6,
        max_monsters_per_room: 3,
    };
    let mut rng = rand::rngs::StdRng::seed_from_u64(1234);
    let mut entities = vec![Entity::new(0, 0, '@', white(), "go4ko", true)];
    let build: MazeBuild = create_maze(&cfg, &mut rng, &mut entities);
    for x in 0..20 {
        for y in 0..20 {
            let in_room = build.rooms.iter().any(|r| room_interior_cell(r, x, y));
            let on_tunnel = build.tunnels.iter().any(|t| tunnel_covers_cell(t, x, y));
            let tile = build.maze[x as usize][y as usize];
            if in_room || on_tunnel {
                assert!(!tile.blocked);
                assert!(!tile.block_sight);
            } else {
                assert!(tile.blocked);
                assert!(tile.block_sight);
            }
            assert!(!tile.is_explored);
        }
    }
}

#[test]
fn seeded_generation_places_player_and_bounds_monsters() {
    let cfg = GenConfig {
        width: 20,
        height: 20,
        max_rooms: 30,
        room_min_size: 4,
        room_max_size: 6,
        max_monsters_per_room: 3,
    };
    let mut rng = rand::rngs::StdRng::seed_from_u64(1234);
    let mut entities = vec![Entity::new(0, 0, '@', white(), "go4ko", true)];
    let build = create_maze(&cfg, &mut rng, &mut entities);
    assert!(!build.rooms.is_empty());
    let first = &build.rooms[0];
    let player = &entities[0];
    assert!(first.x1 <= player.x && player.x <= first.x2);
    assert!(first.y1 <= player.y && player.y <= first.y2);
    assert_eq!((player.x, player.y), first.center());
    let monsters = entities.len() - 1;
    assert!(monsters <= 3 * build.rooms.len());
    for e in entities.iter().skip(1) {
        assert!(e.is_alive);
        assert!(e.is_blocking);
        assert!(e.name == "orc" || e.name == "troll");
        assert!(e.fighter.is_some());
        assert!(build.rooms.iter().any(|r| room_interior_cell(r, e.x, e.y)));
    }
    for r in &build.rooms {
        assert!(4 <= r.x2 - r.x1 && r.x2 - r.x1 <= 6);
        assert!(4 <= r.y2 - r.y1 && r.y2 - r.y1 <= 6);
        assert!(0 <= r.x1 && r.x2 < 20 && 0 <= r.y1 && r.y2 < 20);
    }
}
