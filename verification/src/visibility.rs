//! Line of sight over the grid. A tile is visible when it lies within the
//! viewing radius and the ray marched from the observer toward it meets no
//! opaque tile strictly before it; whether the terminating opaque tile
//! itself counts as visible is the `light_walls` choice. Every tile found
//! visible is remembered as explored, and explored marks are never cleared.

use crate::maze::{imax, imin, maze_wf, tile_at, Maze, Tile};
use vstd::prelude::*;

verus! {

pub open spec fn iabs(a: int) -> int {
    if a >= 0 {
        a
    } else {
        -a
    }
}

pub open spec fn isign(a: int) -> int {
    if a > 0 {
        1
    } else if a < 0 {
        -1
    } else {
        0
    }
}

/// How many steps the ray from `(ox, oy)` to `(tx, ty)` takes: one per cell
/// along the longer axis.
pub open spec fn ray_len(ox: int, oy: int, tx: int, ty: int) -> int {
    imax(iabs(tx - ox), iabs(ty - oy))
}

/// One step of the ray march. The state is `(x, y, ex, ey)`: the current
/// cell and the two error accumulators; each step adds the axis deltas to
/// the accumulators and advances a coordinate whenever its accumulator
/// passes the half-step mark.
pub open spec fn ray_step(ox: int, oy: int, tx: int, ty: int, st: (int, int, int, int)) -> (
    int,
    int,
    int,
    int,
) {
    let adx = iabs(tx - ox);
    let ady = iabs(ty - oy);
    let n = imax(adx, ady);
    let ex2 = st.2 + adx;
    let ey2 = st.3 + ady;
    let x2 = if 2 * ex2 > n {
        st.0 + isign(tx - ox)
    } else {
        st.0
    };
    let ex3 = if 2 * ex2 > n {
        ex2 - n
    } else {
        ex2
    };
    let y2 = if 2 * ey2 > n {
        st.1 + isign(ty - oy)
    } else {
        st.1
    };
    let ey3 = if 2 * ey2 > n {
        ey2 - n
    } else {
        ey2
    };
    (x2, y2, ex3, ey3)
}

/// The ray's state after `k` steps, starting on the observer's cell.
pub open spec fn ray_state(ox: int, oy: int, tx: int, ty: int, k: nat) -> (int, int, int, int)
    decreases k,
{
    if k == 0 {
        (ox, oy, 0, 0)
    } else {
        ray_step(ox, oy, tx, ty, ray_state(ox, oy, tx, ty, (k - 1) as nat))
    }
}

/// The tile under the ray's position after `k` steps.
pub open spec fn tile_on_ray(m: &Maze, ox: int, oy: int, tx: int, ty: int, k: int) -> Tile {
    tile_at(m, ray_state(ox, oy, tx, ty, k as nat).0, ray_state(ox, oy, tx, ty, k as nat).1)
}

/// No cell strictly between observer and target on the ray is opaque.
pub open spec fn ray_clear(m: &Maze, ox: int, oy: int, tx: int, ty: int) -> bool {
    forall|k: int|
        1 <= k < ray_len(ox, oy, tx, ty) ==> !(#[trigger] tile_on_ray(
            m,
            ox,
            oy,
            tx,
            ty,
            k,
        )).block_sight
}

/// The visibility rule: the observer's own cell is always visible; any
/// other cell is visible when it lies within the radius, its ray is clear,
/// and, unless walls are lit, it is not itself opaque.
pub open spec fn spec_visible(
    m: &Maze,
    ox: int,
    oy: int,
    radius: int,
    light_walls: bool,
    x: int,
    y: int,
) -> bool {
    (x == ox && y == oy) || {
        &&& (x - ox) * (x - ox) + (y - oy) * (y - oy) <= radius * radius
        &&& ray_clear(m, ox, oy, x, y)
        &&& (light_walls || !tile_at(m, x, y).block_sight)
    }
}

/// Along the whole march the ray stays inside the bounding box of observer
/// and target, and the accumulators stay within half a step of balance.
proof fn lemma_ray_state_bounds(ox: int, oy: int, tx: int, ty: int, k: nat)
    requires
        k <= ray_len(ox, oy, tx, ty),
    ensures
        ({
            let st = ray_state(ox, oy, tx, ty, k);
            let adx = iabs(tx - ox);
            let ady = iabs(ty - oy);
            let n = imax(adx, ady);
            &&& imin(ox, tx) <= st.0 <= imax(ox, tx)
            &&& imin(oy, ty) <= st.1 <= imax(oy, ty)
            &&& st.2 == k * adx - ((st.0 - ox) * isign(tx - ox)) * n
            &&& st.3 == k * ady - ((st.1 - oy) * isign(ty - oy)) * n
            &&& (st.0 - ox) * isign(tx - ox) >= 0
            &&& (st.1 - oy) * isign(ty - oy) >= 0
            &&& (adx == 0 ==> st.0 == ox)
            &&& (ady == 0 ==> st.1 == oy)
            &&& (n > 0 ==> -n < 2 * st.2 <= n)
            &&& (n > 0 ==> -n < 2 * st.3 <= n)
            &&& (n == 0 ==> st.2 == 0 && st.3 == 0)
        }),
    decreases k,
{
    let adx = iabs(tx - ox);
    let ady = iabs(ty - oy);
    let n = imax(adx, ady);
    let sx = isign(tx - ox);
    let sy = isign(ty - oy);
    if k == 0 {
    } else {
        let k1 = (k - 1) as nat;
        lemma_ray_state_bounds(ox, oy, tx, ty, k1);
        let st0 = ray_state(ox, oy, tx, ty, k1);
        let st = ray_state(ox, oy, tx, ty, k);
        assert(st == ray_step(ox, oy, tx, ty, st0));
        let xsteps0 = (st0.0 - ox) * sx;
        let ysteps0 = (st0.1 - oy) * sy;
        // n > 0 here: k >= 1 and k <= n.
        assert(n > 0);
        let ex2 = st0.2 + adx;
        if 2 * ex2 > n {
            // the x coordinate advances; this cannot happen on a degenerate axis
            assert(adx > 0);
            assert(sx * sx == 1);
            assert(st.0 == st0.0 + sx);
            assert((st.0 - ox) * sx == xsteps0 + 1) by (nonlinear_arith)
                requires
                    st.0 == st0.0 + sx,
                    xsteps0 == (st0.0 - ox) * sx,
                    sx * sx == 1,
            ;
            assert(st.2 == k * adx - ((st.0 - ox) * sx) * n) by (nonlinear_arith)
                requires
                    st.2 == st0.2 + adx - n,
                    st0.2 == k1 * adx - xsteps0 * n,
                    (st.0 - ox) * sx == xsteps0 + 1,
                    k == k1 + 1,
            ;
            // the step count stays at most the axis distance
            assert(xsteps0 + 1 <= adx) by (nonlinear_arith)
                requires
                    st.2 == k * adx - (xsteps0 + 1) * n,
                    2 * st.2 > -n,
                    k <= n,
                    adx <= n,
                    0 < n,
                    0 <= adx,
                    st.2 == st0.2 + adx - n,
                    2 * st0.2 <= n,
            ;
            assert(imin(ox, tx) <= st.0 <= imax(ox, tx)) by (nonlinear_arith)
                requires
                    st.0 == ox + (xsteps0 + 1) * sx,
                    0 <= xsteps0 + 1 <= adx,
                    adx == iabs(tx - ox),
                    sx == isign(tx - ox),
                    adx > 0,
                    imin(ox, tx) == if ox <= tx { ox } else { tx },
                    imax(ox, tx) == if ox >= tx { ox } else { tx },
                    iabs(tx - ox) == if tx - ox >= 0 { tx - ox } else { ox - tx },
                    isign(tx - ox) == if tx - ox > 0 { 1 } else if tx - ox < 0 { -1 } else { 0 },
            ;
        } else {
            assert(st.0 == st0.0 && st.2 == ex2);
            assert(st.2 == k * adx - ((st.0 - ox) * sx) * n) by (nonlinear_arith)
                requires
                    st.2 == st0.2 + adx,
                    st0.2 == k1 * adx - xsteps0 * n,
                    (st.0 - ox) * sx == xsteps0,
                    k == k1 + 1,
            ;
        }
        let ey2 = st0.3 + ady;
        if 2 * ey2 > n {
            assert(ady > 0);
            assert(sy * sy == 1);
            assert(st.1 == st0.1 + sy);
            assert((st.1 - oy) * sy == ysteps0 + 1) by (nonlinear_arith)
                requires
                    st.1 == st0.1 + sy,
                    ysteps0 == (st0.1 - oy) * sy,
                    sy * sy == 1,
            ;
            assert(st.3 == k * ady - ((st.1 - oy) * sy) * n) by (nonlinear_arith)
                requires
                    st.3 == st0.3 + ady - n,
                    st0.3 == k1 * ady - ysteps0 * n,
                    (st.1 - oy) * sy == ysteps0 + 1,
                    k == k1 + 1,
            ;
            assert(ysteps0 + 1 <= ady) by (nonlinear_arith)
                requires
                    st.3 == k * ady - (ysteps0 + 1) * n,
                    2 * st.3 > -n,
                    k <= n,
                    ady <= n,
                    0 < n,
                    0 <= ady,
                    st.3 == st0.3 + ady - n,
                    2 * st0.3 <= n,
            ;
            assert(imin(oy, ty) <= st.1 <= imax(oy, ty)) by (nonlinear_arith)
                requires
                    st.1 == oy + (ysteps0 + 1) * sy,
                    0 <= ysteps0 + 1 <= ady,
                    ady == iabs(ty - oy),
                    sy == isign(ty - oy),
                    ady > 0,
                    imin(oy, ty) == if oy <= ty { oy } else { ty },
                    imax(oy, ty) == if oy >= ty { oy } else { ty },
                    iabs(ty - oy) == if ty - oy >= 0 { ty - oy } else { oy - ty },
                    isign(ty - oy) == if ty - oy > 0 { 1 } else if ty - oy < 0 { -1 } else { 0 },
            ;
        } else {
            assert(st.1 == st0.1 && st.3 == ey2);
            assert(st.3 == k * ady - ((st.1 - oy) * sy) * n) by (nonlinear_arith)
                requires
                    st.3 == st0.3 + ady,
                    st0.3 == k1 * ady - ysteps0 * n,
                    (st.1 - oy) * sy == ysteps0,
                    k == k1 + 1,
            ;
        }
    }
}

/// Whether one tile is visible from `(ox, oy)`, by marching the ray.
fn tile_visible(
    maze: &Maze,
    ox: i32,
    oy: i32,
    tx: i32,
    ty: i32,
    radius: i32,
    light_walls: bool,
    width: i32,
    height: i32,
) -> (r: bool)
    requires
        maze_wf(maze, width as int, height as int),
        0 < width <= 10000,
        0 < height <= 10000,
        0 <= ox < width,
        0 <= oy < height,
        0 <= tx < width,
        0 <= ty < height,
        0 <= radius <= 10000,
    ensures
        r == spec_visible(
            maze,
            ox as int,
            oy as int,
            radius as int,
            light_walls,
            tx as int,
            ty as int,
        ),
{
    if tx == ox && ty == oy {
        return true;
    }
    let dx: i64 = tx as i64 - ox as i64;
    let dy: i64 = ty as i64 - oy as i64;
    let rad: i64 = radius as i64;
    proof {
        assert(0 <= dx * dx <= 100000000) by (nonlinear_arith)
            requires
                -10000 <= dx <= 10000,
        ;
        assert(0 <= dy * dy <= 100000000) by (nonlinear_arith)
            requires
                -10000 <= dy <= 10000,
        ;
        assert(0 <= rad * rad <= 100000000) by (nonlinear_arith)
            requires
                0 <= rad <= 10000,
        ;
    }
    if dx * dx + dy * dy > rad * rad {
        return false;
    }
    let adx = if tx >= ox {
        tx - ox
    } else {
        ox - tx
    };
    let ady = if ty >= oy {
        ty - oy
    } else {
        oy - ty
    };
    let n = if adx >= ady {
        adx
    } else {
        ady
    };
    let sx: i32 = if tx > ox {
        1
    } else if tx < ox {
        -1
    } else {
        0
    };
    let sy: i32 = if ty > oy {
        1
    } else if ty < oy {
        -1
    } else {
        0
    };
    let mut x = ox;
    let mut y = oy;
    let mut ex: i32 = 0;
    let mut ey: i32 = 0;
    let mut k: i32 = 0;
    while k + 1 < n
        invariant
            0 <= k <= n - 1,
            1 <= n <= 10000,
            adx == iabs(tx as int - ox as int),
            ady == iabs(ty as int - oy as int),
            n == ray_len(ox as int, oy as int, tx as int, ty as int),
            sx == isign(tx as int - ox as int),
            sy == isign(ty as int - oy as int),
            maze_wf(maze, width as int, height as int),
            0 < width <= 10000,
            0 < height <= 10000,
            0 <= ox < width,
            0 <= oy < height,
            0 <= tx < width,
            0 <= ty < height,
            x as int == ray_state(ox as int, oy as int, tx as int, ty as int, k as nat).0,
            y as int == ray_state(ox as int, oy as int, tx as int, ty as int, k as nat).1,
            ex as int == ray_state(ox as int, oy as int, tx as int, ty as int, k as nat).2,
            ey as int == ray_state(ox as int, oy as int, tx as int, ty as int, k as nat).3,
            forall|i: int|
                1 <= i <= k ==> !(#[trigger] tile_on_ray(
                    maze,
                    ox as int,
                    oy as int,
                    tx as int,
                    ty as int,
                    i,
                )).block_sight,
        decreases n - k,
    {
        proof {
            lemma_ray_state_bounds(ox as int, oy as int, tx as int, ty as int, k as nat);
        }
        ex = ex + adx;
        ey = ey + ady;
        if 2 * ex > n {
            x = x + sx;
            ex = ex - n;
        }
        if 2 * ey > n {
            y = y + sy;
            ey = ey - n;
        }
        k = k + 1;
        proof {
            lemma_ray_state_bounds(ox as int, oy as int, tx as int, ty as int, k as nat);
        }
        let row = &maze[x as usize];
        if row[y as usize].block_sight {
            proof {
                assert(tile_on_ray(maze, ox as int, oy as int, tx as int, ty as int, k as int)
                    == tile_at(maze, x as int, y as int));
                assert(!ray_clear(maze, ox as int, oy as int, tx as int, ty as int));
            }
            return false;
        }
    }
    proof {
        assert(k == n - 1);
        assert(ray_clear(maze, ox as int, oy as int, tx as int, ty as int));
    }
    if light_walls {
        true
    } else {
        let row = &maze[tx as usize];
        !row[ty as usize].block_sight
    }
}

/// On a horizontal ray the march is exact: after `k` steps it stands `k`
/// cells along, with balanced accumulators.
proof fn lemma_ray_axis_horizontal(ox: int, oy: int, tx: int, k: nat)
    requires
        k <= iabs(tx - ox),
    ensures
        ray_state(ox, oy, tx, oy, k) == (ox + k * isign(tx - ox), oy, 0int, 0int),
    decreases k,
{
    let s = isign(tx - ox);
    let adx = iabs(tx - ox);
    if k == 0 {
    } else {
        let k1 = (k - 1) as nat;
        lemma_ray_axis_horizontal(ox, oy, tx, k1);
        let st0 = ray_state(ox, oy, tx, oy, k1);
        assert(st0 == (ox + k1 * s, oy, 0int, 0int));
        assert(adx > 0);
        assert(ray_len(ox, oy, tx, oy) == adx);
        let st = ray_state(ox, oy, tx, oy, k);
        assert(st == ray_step(ox, oy, tx, oy, st0));
        assert(st.0 == ox + k1 * s + s);
        assert(k1 * s + s == k * s) by (nonlinear_arith)
            requires
                k == k1 + 1,
        ;
    }
}

/// On a vertical ray the march is exact in the same way.
proof fn lemma_ray_axis_vertical(ox: int, oy: int, ty: int, k: nat)
    requires
        k <= iabs(ty - oy),
    ensures
        ray_state(ox, oy, ox, ty, k) == (ox, oy + k * isign(ty - oy), 0int, 0int),
    decreases k,
{
    let s = isign(ty - oy);
    let ady = iabs(ty - oy);
    if k == 0 {
    } else {
        let k1 = (k - 1) as nat;
        lemma_ray_axis_vertical(ox, oy, ty, k1);
        let st0 = ray_state(ox, oy, ox, ty, k1);
        assert(st0 == (ox, oy + k1 * s, 0int, 0int));
        assert(ady > 0);
        assert(ray_len(ox, oy, ox, ty) == ady);
        let st = ray_state(ox, oy, ox, ty, k);
        assert(st == ray_step(ox, oy, ox, ty, st0));
        assert(st.1 == oy + k1 * s + s);
        assert(k1 * s + s == k * s) by (nonlinear_arith)
            requires
                k == k1 + 1,
        ;
    }
}

/// Law: a tile straight behind an opaque tile on the same horizontal ray is
/// never visible, lit walls or not: the ray stops at the wall.
pub proof fn lemma_wall_blocks_horizontal(
    m: &Maze,
    ox: int,
    oy: int,
    s: int,
    j: int,
    d: int,
    radius: int,
    light_walls: bool,
)
    requires
        s == 1 || s == -1,
        1 <= j < d,
        tile_at(m, ox + j * s, oy).block_sight,
    ensures
        !spec_visible(m, ox, oy, radius, light_walls, ox + d * s, oy),
{
    let tx = ox + d * s;
    assert(iabs(tx - ox) == d && isign(tx - ox) == s) by (nonlinear_arith)
        requires
            tx == ox + d * s,
            s == 1 || s == -1,
            1 <= d,
            iabs(tx - ox) == if tx - ox >= 0 { tx - ox } else { ox - tx },
            isign(tx - ox) == if tx - ox > 0 { 1 } else if tx - ox < 0 { -1 } else { 0 },
    ;
    assert(ray_len(ox, oy, tx, oy) == d);
    lemma_ray_axis_horizontal(ox, oy, tx, j as nat);
    assert(tile_on_ray(m, ox, oy, tx, oy, j) == tile_at(m, ox + j * s, oy));
    assert(!ray_clear(m, ox, oy, tx, oy));
    assert(tx != ox);
}

/// Law: the first opaque tile on a straight horizontal ray, within radius,
/// is visible exactly when walls are lit.
pub proof fn lemma_wall_terminates_horizontal(
    m: &Maze,
    ox: int,
    oy: int,
    s: int,
    j: int,
    radius: int,
)
    requires
        s == 1 || s == -1,
        1 <= j,
        j * j <= radius * radius,
        forall|x: int|
            imin(ox, ox + j * s) < x < imax(ox, ox + j * s) ==> !(#[trigger] tile_at(
                m,
                x,
                oy,
            )).block_sight,
    ensures
        spec_visible(m, ox, oy, radius, true, ox + j * s, oy),
        tile_at(m, ox + j * s, oy).block_sight ==> !spec_visible(
            m,
            ox,
            oy,
            radius,
            false,
            ox + j * s,
            oy,
        ),
{
    let tx = ox + j * s;
    assert(iabs(tx - ox) == j && isign(tx - ox) == s) by (nonlinear_arith)
        requires
            tx == ox + j * s,
            s == 1 || s == -1,
            1 <= j,
            iabs(tx - ox) == if tx - ox >= 0 { tx - ox } else { ox - tx },
            isign(tx - ox) == if tx - ox > 0 { 1 } else if tx - ox < 0 { -1 } else { 0 },
    ;
    assert(ray_len(ox, oy, tx, oy) == j);
    assert((tx - ox) * (tx - ox) + (oy - oy) * (oy - oy) <= radius * radius) by (nonlinear_arith)
        requires
            tx - ox == j * s,
            s == 1 || s == -1,
            j * j <= radius * radius,
    ;
    assert forall|k: int| 1 <= k < j implies !(#[trigger] tile_on_ray(
        m,
        ox,
        oy,
        tx,
        oy,
        k,
    )).block_sight by {
        lemma_ray_axis_horizontal(ox, oy, tx, k as nat);
        assert(tile_on_ray(m, ox, oy, tx, oy, k) == tile_at(m, ox + k * s, oy));
        assert(imin(ox, tx) < ox + k * s < imax(ox, tx)) by (nonlinear_arith)
            requires
                tx == ox + j * s,
                s == 1 || s == -1,
                1 <= k < j,
                imin(ox, tx) == if ox <= tx { ox } else { tx },
                imax(ox, tx) == if ox >= tx { ox } else { tx },
        ;
    }
    assert(ray_clear(m, ox, oy, tx, oy));
    assert(tx != ox);
}

/// Law: a tile straight behind an opaque tile on the same vertical ray is
/// never visible, lit walls or not: the ray stops at the wall.
pub proof fn lemma_wall_blocks_vertical(
    m: &Maze,
    ox: int,
    oy: int,
    s: int,
    j: int,
    d: int,
    radius: int,
    light_walls: bool,
)
    requires
        s == 1 || s == -1,
        1 <= j < d,
        tile_at(m, ox, oy + j * s).block_sight,
    ensures
        !spec_visible(m, ox, oy, radius, light_walls, ox, oy + d * s),
{
    let ty = oy + d * s;
    assert(iabs(ty - oy) == d && isign(ty - oy) == s) by (nonlinear_arith)
        requires
            ty == oy + d * s,
            s == 1 || s == -1,
            1 <= d,
            iabs(ty - oy) == if ty - oy >= 0 { ty - oy } else { oy - ty },
            isign(ty - oy) == if ty - oy > 0 { 1 } else if ty - oy < 0 { -1 } else { 0 },
    ;
    assert(ray_len(ox, oy, ox, ty) == d);
    lemma_ray_axis_vertical(ox, oy, ty, j as nat);
    assert(tile_on_ray(m, ox, oy, ox, ty, j) == tile_at(m, ox, oy + j * s));
    assert(!ray_clear(m, ox, oy, ox, ty));
    assert(ty != oy);
}

/// Law: the first opaque tile on a straight vertical ray, within radius,
/// is visible exactly when walls are lit.
pub proof fn lemma_wall_terminates_vertical(
    m: &Maze,
    ox: int,
    oy: int,
    s: int,
    j: int,
    radius: int,
)
    requires
        s == 1 || s == -1,
        1 <= j,
        j * j <= radius * radius,
        forall|y: int|
            imin(oy, oy + j * s) < y < imax(oy, oy + j * s) ==> !(#[trigger] tile_at(
                m,
                ox,
                y,
            )).block_sight,
    ensures
        spec_visible(m, ox, oy, radius, true, ox, oy + j * s),
        tile_at(m, ox, oy + j * s).block_sight ==> !spec_visible(
            m,
            ox,
            oy,
            radius,
            false,
            ox,
            oy + j * s,
        ),
{
    let ty = oy + j * s;
    assert(iabs(ty - oy) == j && isign(ty - oy) == s) by (nonlinear_arith)
        requires
            ty == oy + j * s,
            s == 1 || s == -1,
            1 <= j,
            iabs(ty - oy) == if ty - oy >= 0 { ty - oy } else { oy - ty },
            isign(ty - oy) == if ty - oy > 0 { 1 } else if ty - oy < 0 { -1 } else { 0 },
    ;
    assert(ray_len(ox, oy, ox, ty) == j);
    assert((ox - ox) * (ox - ox) + (ty - oy) * (ty - oy) <= radius * radius) by (nonlinear_arith)
        requires
            ty - oy == j * s,
            s == 1 || s == -1,
            j * j <= radius * radius,
    ;
    assert forall|k: int| 1 <= k < j implies !(#[trigger] tile_on_ray(
        m,
        ox,
        oy,
        ox,
        ty,
        k,
    )).block_sight by {
        lemma_ray_axis_vertical(ox, oy, ty, k as nat);
        assert(tile_on_ray(m, ox, oy, ox, ty, k) == tile_at(m, ox, oy + k * s));
        assert(imin(oy, ty) < oy + k * s < imax(oy, ty)) by (nonlinear_arith)
            requires
                ty == oy + j * s,
                s == 1 || s == -1,
                1 <= k < j,
                imin(oy, ty) == if oy <= ty { oy } else { ty },
                imax(oy, ty) == if oy >= ty { oy } else { ty },
        ;
    }
    assert(ray_clear(m, ox, oy, ox, ty));
    assert(ty != oy);
}

/// The session's field of view: which tiles are currently visible, the
/// observer position it was last computed from, and the viewing parameters.
pub struct VisibilityField {
    pub visible: Vec<Vec<bool>>,
    pub width: i32,
    pub height: i32,
    pub radius: i32,
    pub light_walls: bool,
    pub prev_x: i32,
    pub prev_y: i32,
}

pub open spec fn vis_wf(v: &VisibilityField) -> bool {
    &&& 1 <= v.width <= 10000
    &&& 1 <= v.height <= 10000
    &&& 0 <= v.radius <= 10000
    &&& v.visible@.len() == v.width
    &&& forall|x: int| 0 <= x < v.width ==> (#[trigger] v.visible@[x])@.len() == v.height
}

/// Whether the field currently marks `(x, y)` visible.
pub open spec fn vis_at(v: &VisibilityField, x: int, y: int) -> bool {
    v.visible@[x]@[y]
}

/// How one `update` call from observer `(ox, oy)` turns the field `v0` into
/// `v1` and the grid `m0` into `m1`. An unmoved observer changes nothing;
/// otherwise the visible set becomes exactly what the visibility rule says
/// of `m0`, the observer's own cell included, and each tile's explored mark
/// picks up its visibility while the terrain stays as it was.
pub open spec fn vis_update_rel(
    v0: VisibilityField,
    v1: VisibilityField,
    m0: Maze,
    m1: Maze,
    ox: int,
    oy: int,
) -> bool {
    if v0.prev_x == ox && v0.prev_y == oy {
        v1 == v0 && m1 == m0
    } else {
        &&& v1.prev_x == ox && v1.prev_y == oy
        &&& forall|x: int, y: int|
            0 <= x < v0.width && 0 <= y < v0.height ==> #[trigger] vis_at(&v1, x, y)
                == spec_visible(&m0, ox, oy, v0.radius as int, v0.light_walls, x, y)
        &&& vis_at(&v1, ox, oy)
        &&& forall|x: int, y: int|
            0 <= x < v0.width && 0 <= y < v0.height ==> #[trigger] tile_at(&m1, x, y) == (Tile {
                blocked: tile_at(&m0, x, y).blocked,
                block_sight: tile_at(&m0, x, y).block_sight,
                is_explored: tile_at(&m0, x, y).is_explored || vis_at(&v1, x, y),
            })
    }
}

impl VisibilityField {
    /// A fresh field: nothing visible yet, and the previous observer
    /// position set to the off-grid sentinel, so the first update always
    /// recomputes.
    pub fn new(width: i32, height: i32, radius: i32, light_walls: bool) -> (v: VisibilityField)
        requires
            1 <= width <= 10000,
            1 <= height <= 10000,
            0 <= radius <= 10000,
        ensures
            vis_wf(&v),
            v.width == width,
            v.height == height,
            v.radius == radius,
            v.light_walls == light_walls,
            v.prev_x == -1,
            v.prev_y == -1,
            forall|x: int, y: int| 0 <= x < width && 0 <= y < height ==> !vis_at(&v, x, y),
    {
        let mut grid: Vec<Vec<bool>> = Vec::new();
        let mut x: i32 = 0;
        while x < width
            invariant
                0 <= x <= width,
                1 <= height <= 10000,
                grid@.len() == x,
                forall|i: int| 0 <= i < x ==> (#[trigger] grid@[i])@.len() == height,
                forall|i: int, j: int|
                    0 <= i < x && 0 <= j < height ==> !(#[trigger] (grid@[i])@[j]),
            decreases width - x,
        {
            let mut col: Vec<bool> = Vec::new();
            let mut y: i32 = 0;
            while y < height
                invariant
                    0 <= y <= height,
                    col@.len() == y,
                    forall|j: int| 0 <= j < y ==> !col@[j],
                decreases height - y,
            {
                col.push(false);
                y = y + 1;
            }
            let ghost g_pre = grid;
            grid.push(col);
            proof {
                assert(forall|i: int| 0 <= i < x ==> grid@[i] == g_pre@[i]);
            }
            x = x + 1;
        }
        VisibilityField {
            visible: grid,
            width,
            height,
            radius,
            light_walls,
            prev_x: -1,
            prev_y: -1,
        }
    }

    /// Whether `(x, y)` is in the current visible set.
    pub fn is_in_fov(&self, x: i32, y: i32) -> (r: bool)
        requires
            vis_wf(self),
            0 <= x < self.width,
            0 <= y < self.height,
        ensures
            r == vis_at(self, x as int, y as int),
    {
        let row = &self.visible[x as usize];
        row[y as usize]
    }

    /// Recompute the visible set from `(ox, oy)` when the observer has moved
    /// since the last update (the first update always recomputes, thanks to
    /// the sentinel), and remember every visible tile as explored on the
    /// grid. Terrain never changes, and a tile once explored stays explored,
    /// whatever sequence of updates follows.
    pub fn update(&mut self, maze: &mut Maze, ox: i32, oy: i32) -> (recomputed: bool)
        requires
            vis_wf(old(self)),
            maze_wf(old(maze), old(self).width as int, old(self).height as int),
            0 <= ox < old(self).width,
            0 <= oy < old(self).height,
        ensures
            vis_wf(final(self)),
            final(self).width == old(self).width,
            final(self).height == old(self).height,
            final(self).radius == old(self).radius,
            final(self).light_walls == old(self).light_walls,
            maze_wf(final(maze), old(self).width as int, old(self).height as int),
            forall|x: int, y: int|
                0 <= x < old(self).width && 0 <= y < old(self).height ==> (#[trigger] tile_at(
                    final(maze),
                    x,
                    y,
                )).blocked == tile_at(old(maze), x, y).blocked && tile_at(
                    final(maze),
                    x,
                    y,
                ).block_sight == tile_at(old(maze), x, y).block_sight,
            forall|x: int, y: int|
                0 <= x < old(self).width && 0 <= y < old(self).height ==> (tile_at(
                    old(maze),
                    x,
                    y,
                ).is_explored ==> (#[trigger] tile_at(final(maze), x, y)).is_explored),
            recomputed == !(old(self).prev_x == ox && old(self).prev_y == oy),
            vis_update_rel(*old(self), *final(self), *old(maze), *final(maze), ox as int, oy as int),
    {
        if ox == self.prev_x && oy == self.prev_y {
            return false;
        }
        self.prev_x = ox;
        self.prev_y = oy;
        let width = self.width;
        let height = self.height;
        let mut vis: Vec<Vec<bool>> = Vec::new();
        let mut x: i32 = 0;
        while x < width
            invariant
                0 <= x <= width,
                vis_wf(old(self)),
                width == old(self).width,
                height == old(self).height,
                self.radius == old(self).radius,
                self.light_walls == old(self).light_walls,
                *maze == *old(maze),
                maze_wf(maze, width as int, height as int),
                0 <= ox < width,
                0 <= oy < height,
                vis@.len() == x,
                forall|i: int| 0 <= i < x ==> (#[trigger] vis@[i])@.len() == height,
                forall|i: int, j: int|
                    0 <= i < x && 0 <= j < height ==> #[trigger] ((vis@[i])@[j]) == spec_visible(
                        maze,
                        ox as int,
                        oy as int,
                        old(self).radius as int,
                        old(self).light_walls,
                        i,
                        j,
                    ),
            decreases width - x,
        {
            let mut col: Vec<bool> = Vec::new();
            let mut y: i32 = 0;
            while y < height
                invariant
                    0 <= y <= height,
                    0 <= x < width,
                    vis_wf(old(self)),
                    self.radius == old(self).radius,
                    self.light_walls == old(self).light_walls,
                    *maze == *old(maze),
                    maze_wf(maze, width as int, height as int),
                    0 < width <= 10000,
                    0 < height <= 10000,
                    0 <= ox < width,
                    0 <= oy < height,
                    col@.len() == y,
                    forall|j: int|
                        0 <= j < y ==> col@[j] == spec_visible(
                            maze,
                            ox as int,
                            oy as int,
                            old(self).radius as int,
                            old(self).light_walls,
                            x as int,
                            j,
                        ),
                decreases height - y,
            {
                let v = tile_visible(maze, ox, oy, x, y, self.radius, self.light_walls, width, height);
                col.push(v);
                y = y + 1;
            }
            let ghost v_pre = vis;
            vis.push(col);
            proof {
                assert(forall|i: int| 0 <= i < x ==> vis@[i] == v_pre@[i]);
            }
            x = x + 1;
        }
        self.visible = vis;
        let ghost m0 = *maze;
        let mut x: i32 = 0;
        while x < width
            invariant
                0 <= x <= width,
                vis_wf(self),
                width == self.width,
                height == self.height,
                self.prev_x == ox,
                self.prev_y == oy,
                self.radius == old(self).radius,
                self.light_walls == old(self).light_walls,
                maze_wf(maze, width as int, height as int),
                0 <= ox < width,
                0 <= oy < height,
                forall|i: int, j: int|
                    0 <= i < width && 0 <= j < height ==> #[trigger] vis_at(self, i, j)
                        == spec_visible(
                        &m0,
                        ox as int,
                        oy as int,
                        old(self).radius as int,
                        old(self).light_walls,
                        i,
                        j,
                    ),
                forall|i: int, j: int|
                    0 <= i < width && 0 <= j < height && i < x ==> #[trigger] tile_at(maze, i, j)
                        == (Tile {
                        blocked: tile_at(&m0, i, j).blocked,
                        block_sight: tile_at(&m0, i, j).block_sight,
                        is_explored: tile_at(&m0, i, j).is_explored || vis_at(self, i, j),
                    }),
                forall|i: int, j: int|
                    0 <= i < width && 0 <= j < height && i >= x ==> #[trigger] tile_at(maze, i, j)
                        == tile_at(&m0, i, j),
            decreases width - x,
        {
            let mut y: i32 = 0;
            while y < height
                invariant
                    0 <= y <= height,
                    0 <= x < width,
                    vis_wf(self),
                    width == self.width,
                    height == self.height,
                    maze_wf(maze, width as int, height as int),
                    forall|i: int, j: int|
                        0 <= i < width && 0 <= j < height && (i < x || (i == x && j < y))
                            ==> #[trigger] tile_at(maze, i, j) == (Tile {
                            blocked: tile_at(&m0, i, j).blocked,
                            block_sight: tile_at(&m0, i, j).block_sight,
                            is_explored: tile_at(&m0, i, j).is_explored || vis_at(self, i, j),
                        }),
                    forall|i: int, j: int|
                        0 <= i < width && 0 <= j < height && (i > x || (i == x && j >= y))
                            ==> #[trigger] tile_at(maze, i, j) == tile_at(&m0, i, j),
                decreases height - y,
            {
                let v = {
                    let vrow = &self.visible[x as usize];
                    vrow[y as usize]
                };
                let ghost m1 = *maze;
                let t = {
                    let row = &maze[x as usize];
                    row[y as usize]
                };
                let row = &mut maze[x as usize];
                row.set(
                    y as usize,
                    Tile {
                        blocked: t.blocked,
                        block_sight: t.block_sight,
                        is_explored: t.is_explored || v,
                    },
                );
                proof {
                    assert(forall|i: int, j: int|
                        0 <= i < width && 0 <= j < height && !(i == x && j == y)
                            ==> #[trigger] tile_at(maze, i, j) == tile_at(&m1, i, j));
                    assert(t == tile_at(&m1, x as int, y as int));
                    assert(tile_at(&m1, x as int, y as int) == tile_at(&m0, x as int, y as int));
                    assert(v == vis_at(self, x as int, y as int));
                    assert(tile_at(maze, x as int, y as int) == (Tile {
                        blocked: t.blocked,
                        block_sight: t.block_sight,
                        is_explored: t.is_explored || v,
                    }));
                }
                y = y + 1;
            }
            x = x + 1;
        }
        true
    }
}

} // verus!
