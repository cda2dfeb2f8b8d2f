use maze_core::maze::{Maze, Tile};
use maze_core::visibility::VisibilityField;

fn open_maze(width: i32, height: i32) -> Maze {
    let mut m: Maze = Vec::new();
    for _ in 0..width {
        let mut col = Vec::new();
        for _ in 0..height {
            col.push(Tile::empty());
        }
        m.push(col);
    }
    m
}

#[test]
fn origin_is_always_visible() {
    let mut maze = open_maze(7, 3);
    let mut vis = VisibilityField::new(7, 3, 0, false);
    let recomputed = vis.update(&mut maze, 1, 1);
    assert!(recomputed);
    assert!(vis.is_in_fov(1, 1));
}

#[test]
fn a_wall_hides_what_lies_straight_behind_it() {
    let mut maze = open_maze(7, 3);
    maze[3][1] = Tile::wall();
    let mut vis = VisibilityField::new(7, 3, 10, false);
    vis.update(&mut maze, 1, 1);
    assert!(vis.is_in_fov(1, 1));
    assert!(vis.is_in_fov(2, 1));
    // with unlit walls the terminating wall is not part of the visible set
    assert!(!vis.is_in_fov(3, 1));
    // and the tiles straight behind it are hidden
    assert!(!vis.is_in_fov(4, 1));
    assert!(!vis.is_in_fov(5, 1));
}

#[test]
fn a_lit_wall_terminates_the_ray_but_shows_itself() {
    let mut maze = open_maze(7, 3);
    maze[3][1] = Tile::wall();
    let mut vis = VisibilityField::new(7, 3, 10, true);
    vis.update(&mut maze, 1, 1);
    assert!(vis.is_in_fov(2, 1));
    // the wall itself is shown lit
    assert!(vis.is_in_fov(3, 1));
    // but what lies behind it stays hidden
    assert!(!vis.is_in_fov(4, 1));
    assert!(!vis.is_in_fov(5, 1));
}

#[test]
fn radius_limits_the_visible_set() {
    let mut maze = open_maze(9, 3);
    let mut vis = VisibilityField::new(9, 3, 2, true);
    vis.update(&mut maze, 1, 1);
    assert!(vis.is_in_fov(3, 1));
    assert!(!vis.is_in_fov(4, 1));
}

#[test]
fn explored_marks_only_ever_accumulate() {
    let mut maze = open_maze(9, 3);
    maze[4][1] = Tile::wall();
    let mut vis = VisibilityField::new(9, 3, 2, true);
    vis.update(&mut maze, 1, 1);
    assert!(maze[1][1].is_explored);
    assert!(maze[2][1].is_explored);
    assert!(!maze[7][1].is_explored);
    // after moving away, everything explored before stays explored
    vis.update(&mut maze, 7, 1);
    assert!(maze[1][1].is_explored);
    assert!(maze[2][1].is_explored);
    assert!(maze[7][1].is_explored);
    // the wall keeps the far side and the near side apart in visibility,
    // but not in memory
    assert!(!vis.is_in_fov(1, 1));
    assert!(vis.is_in_fov(7, 1));
}

#[test]
fn update_recomputes_only_after_movement() {
    let mut maze = open_maze(5, 5);
    let mut vis = VisibilityField::new(5, 5, 3, true);
    // the sentinel previous position differs from every grid cell, so the
    // first update always recomputes
    assert!(vis.update(&mut maze, 2, 2));
    assert!(!vis.update(&mut maze, 2, 2));
    assert!(vis.update(&mut maze, 3, 2));
    assert!(!vis.update(&mut maze, 3, 2));
}
