//! The cave automaton: a boolean grid grown by a cellular automaton, its
//! boundary traced by a radial sweep, then smoothed and closed into a loop.

use crate::direction::Direction;
use crate::geom::Point;
use crate::rng::{rand_bool, rand_range};
use vstd::prelude::*;

verus! {

/// Fixed-point basis of the normalized unit square: this many basis points
/// make one unit.
pub const BP_PER_UNIT: i64 = 10000;

/// How many ticks `generate` is willing to spend before giving up.
pub const GENERATE_TICK_CAP: u64 = 200_000;

pub open spec fn cell(g: Seq<Vec<bool>>, x: int, y: int) -> bool {
    g[x]@[y]
}

/// A well-formed cell grid: `width` columns of `height` cells each.
pub open spec fn grid_wf(g: Seq<Vec<bool>>, width: int, height: int) -> bool {
    &&& g.len() == width
    &&& forall|x: int| 0 <= x < width ==> (#[trigger] g[x])@.len() == height
}

/// The number of live 8-neighbors of `(x, y)`, counting only cells that
/// exist on the grid's low side and relying on callers to stay one cell away
/// from the high side.
pub open spec fn nc_spec(g: Seq<Vec<bool>>, x: int, y: int) -> int {
    (if x >= 1 && y >= 1 && cell(g, x - 1, y - 1) {
        1int
    } else {
        0int
    }) + (if x >= 1 && cell(g, x - 1, y) {
        1int
    } else {
        0int
    }) + (if x >= 1 && cell(g, x - 1, y + 1) {
        1int
    } else {
        0int
    }) + (if y >= 1 && cell(g, x, y - 1) {
        1int
    } else {
        0int
    }) + (if cell(g, x, y + 1) {
        1int
    } else {
        0int
    }) + (if y >= 1 && cell(g, x + 1, y - 1) {
        1int
    } else {
        0int
    }) + (if cell(g, x + 1, y) {
        1int
    } else {
        0int
    }) + (if cell(g, x + 1, y + 1) {
        1int
    } else {
        0int
    })
}

/// The automaton's growth rule: a live cell survives with four or more live
/// neighbors; a dead cell is born with exactly three or at least seven.
pub open spec fn grow_cell_spec(g: Seq<Vec<bool>>, x: int, y: int) -> bool {
    if cell(g, x, y) {
        nc_spec(g, x, y) >= 4
    } else {
        nc_spec(g, x, y) == 3 || nc_spec(g, x, y) >= 7
    }
}

/// A dead cell born by the growth rule.
pub open spec fn born_spec(g: Seq<Vec<bool>>, x: int, y: int) -> bool {
    !cell(g, x, y) && (nc_spec(g, x, y) == 3 || nc_spec(g, x, y) >= 7)
}

/// The outermost ring of cells the growth pass writes.
pub open spec fn at_edge_spec(width: int, height: int, x: int, y: int) -> bool {
    x == 0 || y == 0 || x == width - 2 || y == height - 2
}

/// The pure value of a cell grid, column by column; the functional form the
/// sequential cleanup pass is specified over.
pub open spec fn gview(g: Seq<Vec<bool>>) -> Seq<Seq<bool>> {
    Seq::new(g.len(), |x: int| g[x]@)
}

pub open spec fn cell2(m: Seq<Seq<bool>>, x: int, y: int) -> bool {
    m[x][y]
}

/// The live 8-neighbor count over a pure grid; counts exactly as `nc_spec`.
pub open spec fn nc2_spec(m: Seq<Seq<bool>>, x: int, y: int) -> int {
    (if x >= 1 && y >= 1 && cell2(m, x - 1, y - 1) {
        1int
    } else {
        0int
    }) + (if x >= 1 && cell2(m, x - 1, y) {
        1int
    } else {
        0int
    }) + (if x >= 1 && cell2(m, x - 1, y + 1) {
        1int
    } else {
        0int
    }) + (if y >= 1 && cell2(m, x, y - 1) {
        1int
    } else {
        0int
    }) + (if cell2(m, x, y + 1) {
        1int
    } else {
        0int
    }) + (if y >= 1 && cell2(m, x + 1, y - 1) {
        1int
    } else {
        0int
    }) + (if cell2(m, x + 1, y) {
        1int
    } else {
        0int
    }) + (if cell2(m, x + 1, y + 1) {
        1int
    } else {
        0int
    })
}

/// Both views count the same neighbors.
proof fn lemma_nc2_view(g: Seq<Vec<bool>>, w: int, h: int, x: int, y: int)
    requires
        grid_wf(g, w, h),
        0 <= x < w - 1,
        0 <= y < h - 1,
        2 <= w,
        2 <= h,
    ensures
        cell2(gview(g), x, y) == cell(g, x, y),
        nc2_spec(gview(g), x, y) == nc_spec(g, x, y),
{
    assert(forall|a: int| 0 <= a < w ==> gview(g)[a] == #[trigger] g[a]@);
}

/// The grown grid as a value: the growth rule applied everywhere the pass
/// writes, the outermost ring left dead.
pub open spec fn grow2_spec(m: Seq<Seq<bool>>, w: int, h: int) -> Seq<Seq<bool>> {
    Seq::new(
        w as nat,
        |x: int|
            Seq::new(
                h as nat,
                |y: int|
                    x < w - 1 && y < h - 1 && (if cell2(m, x, y) {
                        nc2_spec(m, x, y) >= 4
                    } else {
                        nc2_spec(m, x, y) == 3 || nc2_spec(m, x, y) >= 7
                    }),
            ),
    )
}

/// One dangler check at `(x, y)`: a live cell with at most one live
/// neighbor, judged on the current state of the pass, is cleared.
pub open spec fn trim_step2(m: Seq<Seq<bool>>, x: int, y: int) -> Seq<Seq<bool>> {
    if cell2(m, x, y) && nc2_spec(m, x, y) <= 1 {
        m.update(x, m[x].update(y, false))
    } else {
        m
    }
}

/// The cleanup pass over rows `y..` of column `x`, in place.
pub open spec fn trim_col2(m: Seq<Seq<bool>>, h: int, x: int, y: int) -> Seq<Seq<bool>>
    decreases h - 1 - y,
{
    if y < 0 || y >= h - 1 {
        m
    } else {
        trim_col2(trim_step2(m, x, y), h, x, y + 1)
    }
}

/// The cleanup pass over columns `x..`, each column row by row, every check
/// reading the partially cleaned grid left by the previous ones.
pub open spec fn trim_cols2(m: Seq<Seq<bool>>, w: int, h: int, x: int) -> Seq<Seq<bool>>
    decreases w - 1 - x,
{
    if x < 0 || x >= w - 1 {
        m
    } else {
        trim_cols2(trim_col2(m, h, x, 0), w, h, x + 1)
    }
}

/// The whole sequential dangler cleanup.
pub open spec fn trim_all2(m: Seq<Seq<bool>>, w: int, h: int) -> Seq<Seq<bool>> {
    trim_cols2(m, w, h, 0)
}

/// One growth tick, exactly: the next grid is the growth rule applied to
/// the whole grid, followed, on the completing tick only, by the sequential
/// dangler cleanup; the tick reports completion exactly when the rule
/// births a cell on the outermost writable ring. Nothing else changes.
pub open spec fn growth_tick_rel(pre: CASim, post: CASim, r: bool) -> bool {
    &&& post.width == pre.width
    &&& post.height == pre.height
    &&& post.ca_boundary == pre.ca_boundary
    &&& post.bounds_last_dir == pre.bounds_last_dir
    &&& r == exists|x: int, y: int|
        0 <= x < pre.width - 1 && 0 <= y < pre.height - 1 && born_spec(pre.ca_grid@, x, y)
            && at_edge_spec(pre.width as int, pre.height as int, x, y)
    &&& gview(post.ca_grid@) == (if r {
        trim_all2(
            grow2_spec(gview(pre.ca_grid@), pre.width as int, pre.height as int),
            pre.width as int,
            pre.height as int,
        )
    } else {
        grow2_spec(gview(pre.ca_grid@), pre.width as int, pre.height as int)
    })
}

/// Every boundary point lies on the grid.
pub open spec fn boundary_in_bounds(b: Seq<(i64, i64)>, width: int, height: int) -> bool {
    forall|i: int|
        0 <= i < b.len() ==> 0 <= (#[trigger] b[i]).0 < width && 0 <= b[i].1 < height
}

/// A closed polyline: its first and last points coincide.
pub open spec fn boundary_closed(b: Seq<(i64, i64)>) -> bool {
    b.len() > 0 ==> b[0] == b[b.len() - 1]
}

/// The first live cell in column-major scan order from `(x, y)`, over the
/// region the growth stage writes.
pub open spec fn first_live_from(g: Seq<Vec<bool>>, w: int, h: int, x: int, y: int) -> Option<
    (i64, i64),
>
    decreases w - 1 - x, h - 1 - y,
{
    if x < 0 || y < 0 || x >= w - 1 {
        None
    } else if y >= h - 1 {
        first_live_from(g, w, h, x + 1, 0)
    } else if cell(g, x, y) {
        Some((x as i64, y as i64))
    } else {
        first_live_from(g, w, h, x, y + 1)
    }
}

/// Where an empty boundary is seeded: the first live cell, or the origin on
/// an entirely dead grid.
pub open spec fn seed_cell_spec(g: Seq<Vec<bool>>, w: int, h: int) -> (i64, i64) {
    match first_live_from(g, w, h, 0, 0) {
        Some(p) => p,
        None => (0, 0),
    }
}

/// The `k`-th direction of the clockwise probe sweep, which starts one step
/// past the opposite of the last movement direction.
pub open spec fn probe_dir_spec(last_dir: Direction, k: int) -> Direction {
    Direction::all_spec()[(last_dir.opposite_spec().index_spec() + k) % 8]
}

/// The cell one step from `cur` in direction `d`.
pub open spec fn probe_pt_spec(cur: (i64, i64), d: Direction) -> (i64, i64) {
    ((cur.0 + d.offset_spec().0) as i64, (cur.1 + d.offset_spec().1) as i64)
}

/// A probed cell the sweep can extend the boundary with: on the grid, live,
/// and not yet a boundary member.
pub open spec fn probe_ok_spec(
    g: Seq<Vec<bool>>,
    w: int,
    h: int,
    b: Seq<(i64, i64)>,
    pt: (i64, i64),
) -> bool {
    &&& 0 <= pt.0 < w
    &&& 0 <= pt.1 < h
    &&& cell(g, pt.0 as int, pt.1 as int)
    &&& !b.contains(pt)
}

/// What the sweep finds from probe `k` on: the first extendable neighbor
/// together with the direction that reached it.
pub open spec fn probe_found_spec(
    g: Seq<Vec<bool>>,
    w: int,
    h: int,
    b: Seq<(i64, i64)>,
    cur: (i64, i64),
    last_dir: Direction,
    k: int,
) -> Option<((i64, i64), Direction)>
    decreases 8 - k,
{
    if k < 1 || k >= 8 {
        None
    } else {
        let d = probe_dir_spec(last_dir, k);
        let pt = probe_pt_spec(cur, d);
        if probe_ok_spec(g, w, h, b, pt) {
            Some((pt, d))
        } else {
            probe_found_spec(g, w, h, b, cur, last_dir, k + 1)
        }
    }
}

/// How many probed neighbors were already boundary members, counted from
/// probe `k` up to the probe that extends the boundary (or through all
/// seven probes when none does). Two such hits signal a closed loop.
pub open spec fn probe_marked_spec(
    g: Seq<Vec<bool>>,
    w: int,
    h: int,
    b: Seq<(i64, i64)>,
    cur: (i64, i64),
    last_dir: Direction,
    k: int,
) -> int
    decreases 8 - k,
{
    if k < 1 || k >= 8 {
        0
    } else {
        let d = probe_dir_spec(last_dir, k);
        let pt = probe_pt_spec(cur, d);
        if probe_ok_spec(g, w, h, b, pt) {
            0
        } else {
            (if b.contains(pt) {
                1int
            } else {
                0int
            }) + probe_marked_spec(g, w, h, b, cur, last_dir, k + 1)
        }
    }
}

/// One boundary-trace tick, exactly: the boundary is seeded if empty; the
/// sweep's first extendable neighbor is appended (and becomes the new last
/// movement direction), or, when the sweep finds none, the tracer backs out
/// by removing the last point and clearing its grid cell; the tick reports
/// completion exactly when the sweep ran into the existing boundary twice.
pub open spec fn trace_tick_rel(pre: CASim, post: CASim, r: bool) -> bool {
    let seeded = if pre.ca_boundary@.len() == 0 {
        seq![seed_cell_spec(pre.ca_grid@, pre.width as int, pre.height as int)]
    } else {
        pre.ca_boundary@
    };
    let cur = seeded.last();
    let found = probe_found_spec(
        pre.ca_grid@,
        pre.width as int,
        pre.height as int,
        seeded,
        cur,
        pre.bounds_last_dir,
        1,
    );
    &&& post.width == pre.width
    &&& post.height == pre.height
    &&& r == (probe_marked_spec(
        pre.ca_grid@,
        pre.width as int,
        pre.height as int,
        seeded,
        cur,
        pre.bounds_last_dir,
        1,
    ) >= 2)
    &&& match found {
        Some(pd) => {
            &&& post.ca_boundary@ == seeded.push(pd.0)
            &&& post.bounds_last_dir == pd.1
            &&& post.ca_grid@ == pre.ca_grid@
        },
        None => {
            &&& post.ca_boundary@ == seeded.take(seeded.len() - 1)
            &&& post.bounds_last_dir == pre.bounds_last_dir
            &&& forall|x: int, y: int|
                0 <= x < pre.width && 0 <= y < pre.height ==> cell(post.ca_grid@, x, y) == (if (
                x as i64,
                y as i64,
            ) == cur {
                    false
                } else {
                    cell(pre.ca_grid@, x, y)
                })
        },
    }
}

/// One smoothing tick, exactly: every second boundary point is kept,
/// halving the polyline's density; nothing else changes.
pub open spec fn smooth_tick_rel(pre: CASim, post: CASim) -> bool {
    &&& post.width == pre.width
    &&& post.height == pre.height
    &&& post.ca_grid == pre.ca_grid
    &&& post.bounds_last_dir == pre.bounds_last_dir
    &&& post.ca_boundary@.len() == pre.ca_boundary@.len() / 2
    &&& forall|i: int|
        0 <= i < post.ca_boundary@.len() ==> #[trigger] post.ca_boundary@[i]
            == pre.ca_boundary@[2 * i + 1]
}

/// Consecutive boundary points are at most one cell apart (8-connected).
pub open spec fn boundary_chain_ok(b: Seq<(i64, i64)>) -> bool {
    forall|i: int|
        0 <= i < b.len() - 1 ==> -1 <= (#[trigger] b[i + 1]).0 - b[i].0 <= 1 && -1 <= b[i + 1].1
            - b[i].1 <= 1
}

fn neighbor_count_at(grid: &Vec<Vec<bool>>, width: usize, height: usize, x: usize, y: usize) -> (r:
    u8)
    requires
        grid_wf(grid@, width as int, height as int),
        2 <= width <= 1000,
        2 <= height <= 1000,
        x < width - 1,
        y < height - 1,
    ensures
        r as int == nc_spec(grid@, x as int, y as int),
{
    let mut count: u8 = 0;
    if x >= 1 {
        if y >= 1 && *grid.get(x - 1).unwrap().get(y - 1).unwrap() {
            count = count + 1;
        }
        if *grid.get(x - 1).unwrap().get(y).unwrap() {
            count = count + 1;
        }
        if *grid.get(x - 1).unwrap().get(y + 1).unwrap() {
            count = count + 1;
        }
    }
    if y >= 1 && *grid.get(x).unwrap().get(y - 1).unwrap() {
        count = count + 1;
    }
    if *grid.get(x).unwrap().get(y + 1).unwrap() {
        count = count + 1;
    }
    if y >= 1 && *grid.get(x + 1).unwrap().get(y - 1).unwrap() {
        count = count + 1;
    }
    if *grid.get(x + 1).unwrap().get(y).unwrap() {
        count = count + 1;
    }
    if *grid.get(x + 1).unwrap().get(y + 1).unwrap() {
        count = count + 1;
    }
    count
}

/// Clears one grid cell.
fn clear_cell(grid: &mut Vec<Vec<bool>>, width: usize, height: usize, x: usize, y: usize)
    requires
        grid_wf(old(grid)@, width as int, height as int),
        x < width,
        y < height,
    ensures
        grid_wf(final(grid)@, width as int, height as int),
        final(grid)@.len() == old(grid)@.len(),
        forall|x0: int, y0: int|
            0 <= x0 < width && 0 <= y0 < height ==> cell(final(grid)@, x0, y0) == if x0 == x && y0
                == y {
                false
            } else {
                cell(old(grid)@, x0, y0)
            },
{
    let col: &Vec<bool> = grid.get(x).unwrap();
    let mut new_col: Vec<bool> = Vec::new();
    let mut j: usize = 0;
    while j < height
        invariant
            grid_wf(grid@, width as int, height as int),
            grid@ == old(grid)@,
            x < width,
            y < height,
            new_col@.len() == j,
            0 <= j <= height,
            forall|y0: int|
                0 <= y0 < j ==> #[trigger] new_col@[y0] == if y0 == y {
                    false
                } else {
                    grid@[x as int]@[y0]
                },
        decreases height - j,
    {
        let v: bool = if j == y {
            false
        } else {
            *grid.get(x).unwrap().get(j).unwrap()
        };
        new_col.push(v);
        j = j + 1;
    }
    grid.set(x, new_col);
}

/// The centered seed box that initial growth starts from: a quarter of the
/// grid in each dimension.
pub open spec fn in_seed_box(width: int, height: int, x: int, y: int) -> bool {
    &&& width / 2 - (width / 4) / 2 <= x < width / 2 - (width / 4) / 2 + width / 4
    &&& height / 2 - (height / 4) / 2 <= y < height / 2 - (height / 4) / 2 + height / 4
}

/// A fresh cave grid: a random box of live and dead cells near the grid
/// center, everything else dead.
fn gen_cave(width: usize, height: usize) -> (grid: Vec<Vec<bool>>)
    requires
        4 <= width <= 1000,
        4 <= height <= 1000,
    ensures
        grid_wf(grid@, width as int, height as int),
        forall|x: int, y: int|
            0 <= x < width && 0 <= y < height && cell(grid@, x, y) ==> in_seed_box(
                width as int,
                height as int,
                x,
                y,
            ),
{
    proof {
        assert(width / 4 <= width && width / 2 <= width && (width / 4) / 2 <= width / 2 && height
            / 4 <= height && height / 2 <= height && (height / 4) / 2 <= height / 2)
            by (nonlinear_arith)
            requires
                4 <= width <= 1000,
                4 <= height <= 1000,
        ;
    }
    let inner_box_w: usize = width / 4;
    let inner_box_h: usize = height / 4;
    let left_edge: usize = (width / 2) - (inner_box_w / 2);
    let top_edge: usize = (height / 2) - (inner_box_h / 2);
    let mut grid: Vec<Vec<bool>> = Vec::new();
    let mut x: usize = 0;
    while x < width
        invariant
            grid@.len() == x,
            0 <= x <= width,
            4 <= width <= 1000,
            4 <= height <= 1000,
            inner_box_w == width as int / 4,
            inner_box_h == height as int / 4,
            left_edge == width as int / 2 - (width as int / 4) / 2,
            top_edge == height as int / 2 - (height as int / 4) / 2,
            inner_box_w <= 1000,
            inner_box_h <= 1000,
            left_edge <= 1000,
            top_edge <= 1000,
            forall|x0: int| 0 <= x0 < x ==> (#[trigger] grid@[x0])@.len() == height,
            forall|x0: int, y0: int|
                0 <= x0 < x && 0 <= y0 < height && cell(grid@, x0, y0) ==> in_seed_box(
                    width as int,
                    height as int,
                    x0,
                    y0,
                ),
        decreases width - x,
    {
        let mut col: Vec<bool> = Vec::new();
        let mut y: usize = 0;
        while y < height
            invariant
                col@.len() == y,
                0 <= x < width,
                0 <= y <= height,
                4 <= width <= 1000,
                4 <= height <= 1000,
                inner_box_w == width as int / 4,
                inner_box_h == height as int / 4,
                left_edge == width as int / 2 - (width as int / 4) / 2,
                top_edge == height as int / 2 - (height as int / 4) / 2,
                inner_box_w <= 1000,
                inner_box_h <= 1000,
                left_edge <= 1000,
                top_edge <= 1000,
                forall|y0: int|
                    0 <= y0 < y && #[trigger] col@[y0] ==> in_seed_box(
                        width as int,
                        height as int,
                        x as int,
                        y0,
                    ),
            decreases height - y,
        {
            let in_box: bool = x >= left_edge && x < left_edge + inner_box_w && y >= top_edge && y
                < top_edge + inner_box_h;
            let v: bool = if in_box {
                rand_bool()
            } else {
                false
            };
            col.push(v);
            y = y + 1;
        }
        let ghost before: Seq<Vec<bool>> = grid@;
        let ghost colv: Seq<bool> = col@;
        proof {
            assert(forall|y0: int|
                0 <= y0 < height && #[trigger] colv[y0] ==> in_seed_box(
                    width as int,
                    height as int,
                    x as int,
                    y0,
                ));
        }
        grid.push(col);
        proof {
            assert forall|x0: int, y0: int|
                0 <= x0 < x + 1 && 0 <= y0 < height && cell(grid@, x0, y0) implies in_seed_box(
                width as int,
                height as int,
                x0,
                y0,
            ) by {
                if x0 == x {
                    assert(grid@[x0]@ == colv);
                } else {
                    assert(grid@[x0] == before[x0]);
                    assert(cell(before, x0, y0));
                }
            }
        }
        x = x + 1;
    }
    grid
}

/// Whether some dead cell of column `x` is born on the outermost writable
/// ring by the growth rule.
fn col_born_at_edge(grid: &Vec<Vec<bool>>, width: usize, height: usize, x: usize) -> (r: bool)
    requires
        grid_wf(grid@, width as int, height as int),
        4 <= width <= 1000,
        4 <= height <= 1000,
        x < width - 1,
    ensures
        r == exists|y0: int|
            0 <= y0 < height - 1 && born_spec(grid@, x as int, y0) && at_edge_spec(
                width as int,
                height as int,
                x as int,
                y0,
            ),
{
    let mut y: usize = 0;
    while y < height - 1
        invariant
            grid_wf(grid@, width as int, height as int),
            4 <= width <= 1000,
            4 <= height <= 1000,
            x < width - 1,
            0 <= y <= height - 1,
            forall|y0: int|
                0 <= y0 < y ==> !((#[trigger] born_spec(grid@, x as int, y0)) && at_edge_spec(
                    width as int,
                    height as int,
                    x as int,
                    y0,
                )),
        decreases height - 1 - y,
    {
        let cur: bool = *grid.get(x).unwrap().get(y).unwrap();
        let nc: u8 = neighbor_count_at(grid, width, height, x, y);
        let born: bool = !cur && (nc == 3 || nc >= 7);
        let edge: bool = x == 0 || y == 0 || x == width - 2 || y == height - 2;
        if born && edge {
            proof {
                assert(born_spec(grid@, x as int, y as int));
                assert(at_edge_spec(width as int, height as int, x as int, y as int));
            }
            return true;
        }
        y = y + 1;
    }
    false
}

/// Whether the growth rule births some cell on the outermost writable ring.
fn born_at_edge_exists(grid: &Vec<Vec<bool>>, width: usize, height: usize) -> (r: bool)
    requires
        grid_wf(grid@, width as int, height as int),
        4 <= width <= 1000,
        4 <= height <= 1000,
    ensures
        r == exists|x0: int, y0: int|
            0 <= x0 < width - 1 && 0 <= y0 < height - 1 && born_spec(grid@, x0, y0)
                && at_edge_spec(width as int, height as int, x0, y0),
{
    let mut x: usize = 0;
    while x < width - 1
        invariant
            grid_wf(grid@, width as int, height as int),
            4 <= width <= 1000,
            4 <= height <= 1000,
            0 <= x <= width - 1,
            forall|x0: int, y0: int|
                0 <= x0 < x && 0 <= y0 < height - 1 ==> !((#[trigger] born_spec(grid@, x0, y0))
                    && at_edge_spec(width as int, height as int, x0, y0)),
        decreases width - 1 - x,
    {
        if col_born_at_edge(grid, width, height, x) {
            return true;
        }
        x = x + 1;
    }
    false
}

/// One growth pass over the whole grid: the next grid under the automaton
/// rule.
fn apply_growth(grid: &Vec<Vec<bool>>, width: usize, height: usize) -> (r: Vec<Vec<bool>>)
    requires
        grid_wf(grid@, width as int, height as int),
        4 <= width <= 1000,
        4 <= height <= 1000,
    ensures
        grid_wf(r@, width as int, height as int),
        forall|x: int, y: int|
            0 <= x < width && 0 <= y < height ==> cell(r@, x, y) == (x < width - 1 && y < height
                - 1 && grow_cell_spec(grid@, x, y)),
{
    let mut newg: Vec<Vec<bool>> = Vec::new();
    let mut x: usize = 0;
    while x < width
        invariant
            grid_wf(grid@, width as int, height as int),
            4 <= width <= 1000,
            4 <= height <= 1000,
            newg@.len() == x,
            0 <= x <= width,
            forall|x0: int| 0 <= x0 < x ==> (#[trigger] newg@[x0])@.len() == height,
            forall|x0: int, y0: int|
                0 <= x0 < x && 0 <= y0 < height ==> cell(newg@, x0, y0) == (x0 < width - 1 && y0
                    < height - 1 && grow_cell_spec(grid@, x0, y0)),
        decreases width - x,
    {
        let mut col: Vec<bool> = Vec::new();
        let mut y: usize = 0;
        while y < height
            invariant
                grid_wf(grid@, width as int, height as int),
                4 <= width <= 1000,
                4 <= height <= 1000,
                0 <= x < width,
                col@.len() == y,
                0 <= y <= height,
                forall|y0: int|
                    0 <= y0 < y ==> #[trigger] col@[y0] == (x < width - 1 && y0 < height - 1
                        && grow_cell_spec(grid@, x as int, y0)),
            decreases height - y,
        {
            if x < width - 1 && y < height - 1 {
                let cur: bool = *grid.get(x).unwrap().get(y).unwrap();
                let nc: u8 = neighbor_count_at(grid, width, height, x, y);
                let v: bool = if cur {
                    nc >= 4
                } else {
                    nc == 3 || nc >= 7
                };
                col.push(v);
            } else {
                col.push(false);
            }
            y = y + 1;
        }
        let ghost before: Seq<Vec<bool>> = newg@;
        let ghost colv: Seq<bool> = col@;
        proof {
            assert forall|y0: int| 0 <= y0 < height implies #[trigger] colv[y0] == (x < width - 1
                && y0 < height - 1 && grow_cell_spec(grid@, x as int, y0)) by {
                assert(col@[y0] == (x < width - 1 && y0 < height - 1 && grow_cell_spec(
                    grid@,
                    x as int,
                    y0,
                )));
            }
        }
        newg.push(col);
        proof {
            assert forall|x0: int, y0: int| 0 <= x0 < x + 1 && 0 <= y0 < height implies cell(
                newg@,
                x0,
                y0,
            ) == (x0 < width - 1 && y0 < height - 1 && grow_cell_spec(grid@, x0, y0)) by {
                if x0 == x {
                    assert(newg@[x0]@ == colv);
                    assert(colv[y0] == (x < width - 1 && y0 < height - 1 && grow_cell_spec(
                        grid@,
                        x as int,
                        y0,
                    )));
                } else {
                    assert(newg@[x0] == before[x0]);
                    assert(cell(before, x0, y0) == (x0 < width - 1 && y0 < height - 1 && grow_cell_spec(
                        grid@,
                        x0,
                        y0,
                    )));
                }
            }
        }
        x = x + 1;
    }
    newg
}

/// The cleanup pass: removes dangler cells, those with at most one live
/// neighbor, in place, column by column and row by row, each check reading
/// the partially cleaned grid the previous checks left behind.
fn trim_danglers(grid: &mut Vec<Vec<bool>>, width: usize, height: usize)
    requires
        grid_wf(old(grid)@, width as int, height as int),
        4 <= width <= 1000,
        4 <= height <= 1000,
    ensures
        grid_wf(final(grid)@, width as int, height as int),
        gview(final(grid)@) == trim_all2(gview(old(grid)@), width as int, height as int),
{
    let ghost orig: Seq<Seq<bool>> = gview(grid@);
    let mut x: usize = 0;
    while x < width - 1
        invariant
            grid_wf(grid@, width as int, height as int),
            4 <= width <= 1000,
            4 <= height <= 1000,
            0 <= x <= width - 1,
            trim_cols2(orig, width as int, height as int, 0) == trim_cols2(
                gview(grid@),
                width as int,
                height as int,
                x as int,
            ),
        decreases width - 1 - x,
    {
        let mut y: usize = 0;
        proof {
            assert(trim_cols2(gview(grid@), width as int, height as int, x as int) == trim_cols2(
                trim_col2(gview(grid@), height as int, x as int, 0),
                width as int,
                height as int,
                x as int + 1,
            ));
        }
        while y < height - 1
            invariant
                grid_wf(grid@, width as int, height as int),
                4 <= width <= 1000,
                4 <= height <= 1000,
                0 <= x < width - 1,
                0 <= y <= height - 1,
                trim_cols2(orig, width as int, height as int, 0) == trim_cols2(
                    trim_col2(gview(grid@), height as int, x as int, y as int),
                    width as int,
                    height as int,
                    x as int + 1,
                ),
            decreases height - 1 - y,
        {
            let c: bool = *grid.get(x).unwrap().get(y).unwrap();
            let nc: u8 = neighbor_count_at(grid, width, height, x, y);
            proof {
                lemma_nc2_view(grid@, width as int, height as int, x as int, y as int);
            }
            let ghost before: Seq<Seq<bool>> = gview(grid@);
            let ghost gpre: Seq<Vec<bool>> = grid@;
            if c && nc <= 1 {
                clear_cell(grid, width, height, x, y);
                proof {
                    assert(cell2(before, x as int, y as int) && nc2_spec(before, x as int, y as int)
                        <= 1);
                    let stepped = trim_step2(before, x as int, y as int);
                    assert(stepped == before.update(
                        x as int,
                        before[x as int].update(y as int, false),
                    ));
                    assert forall|a: int, b: int|
                        0 <= a < width && 0 <= b < height implies gview(grid@)[a][b]
                        == stepped[a][b] by {
                        assert(gview(grid@)[a] == grid@[a]@);
                        assert(before[a] == gpre[a]@);
                        assert(cell(grid@, a, b) == if a == x && b == y {
                            false
                        } else {
                            cell(gpre, a, b)
                        });
                    }
                    assert(gview(grid@) =~~= stepped);
                }
            } else {
                proof {
                    assert(trim_step2(before, x as int, y as int) == before);
                }
            }
            proof {
                assert(trim_col2(before, height as int, x as int, y as int) == trim_col2(
                    trim_step2(before, x as int, y as int),
                    height as int,
                    x as int,
                    y as int + 1,
                ));
            }
            y = y + 1;
        }
        proof {
            assert(trim_col2(gview(grid@), height as int, x as int, height - 1 as int) == gview(
                grid@,
            ));
        }
        x = x + 1;
    }
    proof {
        assert(trim_cols2(gview(grid@), width as int, height as int, width - 1 as int) == gview(
            grid@,
        ));
    }
}

/// The position of a direction in the clockwise order.
fn dir_index(d: Direction) -> (r: usize)
    ensures
        r < 8,
        r == d.index_spec(),
        Direction::all_spec()[r as int] == d,
{
    match d {
        Direction::North => 0,
        Direction::NorthEast => 1,
        Direction::East => 2,
        Direction::SouthEast => 3,
        Direction::South => 4,
        Direction::SouthWest => 5,
        Direction::West => 6,
        Direction::NorthWest => 7,
    }
}

fn bd_contains(v: &Vec<(i64, i64)>, p: (i64, i64)) -> (r: bool)
    ensures
        r == v@.contains(p),
{
    let mut i: usize = 0;
    while i < v.len()
        invariant
            0 <= i <= v@.len(),
            forall|k: int| 0 <= k < i ==> #[trigger] v@[k] != p,
        decreases v@.len() - i,
    {
        let q: (i64, i64) = *v.get(i).unwrap();
        if q.0 == p.0 && q.1 == p.1 {
            return true;
        }
        i = i + 1;
    }
    false
}

/// Scans the grid column by column for the first live cell; the origin when
/// every cell is dead.
fn find_first_live(grid: &Vec<Vec<bool>>, width: usize, height: usize) -> (r: (i64, i64))
    requires
        grid_wf(grid@, width as int, height as int),
        4 <= width <= 1000,
        4 <= height <= 1000,
    ensures
        0 <= r.0 < width,
        0 <= r.1 < height,
        r == seed_cell_spec(grid@, width as int, height as int),
{
    let mut x: usize = 0;
    while x < width - 1
        invariant
            grid_wf(grid@, width as int, height as int),
            4 <= width <= 1000,
            4 <= height <= 1000,
            0 <= x <= width - 1,
            first_live_from(grid@, width as int, height as int, 0, 0) == first_live_from(
                grid@,
                width as int,
                height as int,
                x as int,
                0,
            ),
        decreases width - 1 - x,
    {
        let mut y: usize = 0;
        while y < height - 1
            invariant
                grid_wf(grid@, width as int, height as int),
                4 <= width <= 1000,
                4 <= height <= 1000,
                0 <= x < width - 1,
                0 <= y <= height - 1,
                first_live_from(grid@, width as int, height as int, 0, 0) == first_live_from(
                    grid@,
                    width as int,
                    height as int,
                    x as int,
                    y as int,
                ),
            decreases height - 1 - y,
        {
            if *grid.get(x).unwrap().get(y).unwrap() {
                return (x as i64, y as i64);
            }
            y = y + 1;
        }
        x = x + 1;
    }
    (0, 0)
}

/// The cave automaton: a cell grid, the boundary polyline traced over it,
/// and the stage of the multi-step generation process.
#[derive(Debug)]
pub struct CASim {
    pub ca_grid: Vec<Vec<bool>>,
    pub ca_boundary: Vec<(i64, i64)>,
    pub width: usize,
    pub height: usize,
    pub gen_stage: u8,
    pub bounds_last_dir: Direction,
}

impl CASim {
    pub open spec fn wf(self) -> bool {
        &&& 4 <= self.width <= 1000
        &&& 4 <= self.height <= 1000
        &&& grid_wf(self.ca_grid@, self.width as int, self.height as int)
        &&& boundary_in_bounds(self.ca_boundary@, self.width as int, self.height as int)
    }

    /// Once generation has finished, the boundary is a closed loop.
    pub open spec fn done_closed(self) -> bool {
        self.gen_stage > 3 ==> boundary_closed(self.ca_boundary@)
    }

    pub fn new(width: usize, height: usize) -> (r: CASim)
        requires
            4 <= width <= 1000,
            4 <= height <= 1000,
        ensures
            r.wf(),
            r.width == width,
            r.height == height,
            r.gen_stage == 0,
            r.ca_boundary@.len() == 0,
            forall|x: int, y: int|
                0 <= x < width && 0 <= y < height && cell(r.ca_grid@, x, y) ==> in_seed_box(
                    width as int,
                    height as int,
                    x,
                    y,
                ),
    {
        let ca_grid = gen_cave(width, height);
        CASim {
            ca_grid,
            ca_boundary: Vec::new(),
            width,
            height,
            gen_stage: 0,
            bounds_last_dir: Direction::SouthEast,
        }
    }

    /// One tick of the growth stage: the automaton rule over the whole grid.
    /// Returns true exactly when growth has reached the edge of the grid;
    /// the grid is then also cleaned of danglers in place.
    /// `growth_tick_rel` states the whole step.
    pub fn tick_ca_sim(&mut self) -> (r: bool)
        requires
            old(self).wf(),
        ensures
            final(self).wf(),
            final(self).gen_stage == old(self).gen_stage,
            growth_tick_rel(*old(self), *final(self), r),
    {
        let growth_done: bool = born_at_edge_exists(&self.ca_grid, self.width, self.height);
        let newg: Vec<Vec<bool>> = apply_growth(&self.ca_grid, self.width, self.height);
        let ghost gold: Seq<Vec<bool>> = self.ca_grid@;
        let ghost gnew: Seq<Vec<bool>> = newg@;
        proof {
            assert forall|x: int, y: int| 0 <= x < self.width && 0 <= y < self.height implies
                gview(gnew)[x][y] == grow2_spec(
                gview(gold),
                self.width as int,
                self.height as int,
            )[x][y] by {
                assert(gview(gnew)[x] == gnew[x]@);
                assert(cell(gnew, x, y) == (x < self.width - 1 && y < self.height - 1
                    && grow_cell_spec(gold, x, y)));
                if x < self.width - 1 && y < self.height - 1 {
                    lemma_nc2_view(gold, self.width as int, self.height as int, x, y);
                }
            }
            assert(gview(gnew) =~~= grow2_spec(
                gview(gold),
                self.width as int,
                self.height as int,
            ));
        }
        self.ca_grid = newg;
        if growth_done {
            let w = self.width;
            let h = self.height;
            trim_danglers(&mut self.ca_grid, w, h);
        }
        growth_done
    }

    /// One step of the boundary trace: extends the boundary by the first
    /// unvisited live neighbor in the clockwise sweep, or backs out of a
    /// dead end by removing the last point and clearing its cell. Returns
    /// true exactly when the sweep has met the existing boundary twice,
    /// which closes the loop; `trace_tick_rel` states the whole step.
    #[verifier::rlimit(100)]
    #[verifier::spinoff_prover]
    pub fn tick_cave_boundary(&mut self) -> (r: bool)
        requires
            old(self).wf(),
        ensures
            final(self).wf(),
            final(self).width == old(self).width,
            final(self).height == old(self).height,
            final(self).gen_stage == old(self).gen_stage,
            forall|x: int, y: int|
                0 <= x < old(self).width && 0 <= y < old(self).height && cell(
                    final(self).ca_grid@,
                    x,
                    y,
                ) ==> cell(old(self).ca_grid@, x, y),
            boundary_chain_ok(old(self).ca_boundary@) ==> boundary_chain_ok(
                final(self).ca_boundary@,
            ),
            trace_tick_rel(*old(self), *final(self), r),
    {
        let ghost g0: Seq<Vec<bool>> = self.ca_grid@;
        let ghost last_dir0: Direction = self.bounds_last_dir;
        let mut cur_cell: (i64, i64) = (0, 0);
        if self.ca_boundary.len() == 0 {
            cur_cell = find_first_live(&self.ca_grid, self.width, self.height);
            self.ca_boundary.push(cur_cell);
            proof {
                assert(self.ca_boundary@ =~= seq![
                    seed_cell_spec(g0, self.width as int, self.height as int),
                ]);
            }
        } else {
            cur_cell = *self.ca_boundary.get(self.ca_boundary.len() - 1).unwrap();
        }
        let in_dir: Direction = self.bounds_last_dir.opposite();
        let dirs: Vec<Direction> = Direction::iterator();
        let start: usize = dir_index(in_dir);
        let mut marked_encountered: u32 = 0;
        let mut pushed_one: bool = false;
        let mut k: usize = 1;
        let ghost entered: Seq<(i64, i64)> = self.ca_boundary@;
        proof {
            assert(entered == (if old(self).ca_boundary@.len() == 0 {
                seq![seed_cell_spec(g0, old(self).width as int, old(self).height as int)]
            } else {
                old(self).ca_boundary@
            }));
        }
        while k < 8
            invariant
                self.wf(),
                self.width == old(self).width,
                self.height == old(self).height,
                self.gen_stage == old(self).gen_stage,
                self.ca_grid == old(self).ca_grid,
                self.ca_grid@ == g0,
                dirs@ == Direction::all_spec(),
                last_dir0 == old(self).bounds_last_dir,
                start == last_dir0.opposite_spec().index_spec(),
                start < 8,
                1 <= k <= 8,
                marked_encountered <= k,
                0 <= cur_cell.0 < self.width,
                0 <= cur_cell.1 < self.height,
                entered == (if old(self).ca_boundary@.len() == 0 {
                    seq![seed_cell_spec(g0, old(self).width as int, old(self).height as int)]
                } else {
                    old(self).ca_boundary@
                }),
                entered.len() > 0,
                cur_cell == entered.last(),
                !pushed_one ==> self.ca_boundary@ == entered,
                !pushed_one ==> self.bounds_last_dir == last_dir0,
                !pushed_one ==> probe_found_spec(
                    g0,
                    self.width as int,
                    self.height as int,
                    entered,
                    cur_cell,
                    last_dir0,
                    1,
                ) == probe_found_spec(
                    g0,
                    self.width as int,
                    self.height as int,
                    entered,
                    cur_cell,
                    last_dir0,
                    k as int,
                ),
                !pushed_one ==> probe_marked_spec(
                    g0,
                    self.width as int,
                    self.height as int,
                    entered,
                    cur_cell,
                    last_dir0,
                    1,
                ) == marked_encountered + probe_marked_spec(
                    g0,
                    self.width as int,
                    self.height as int,
                    entered,
                    cur_cell,
                    last_dir0,
                    k as int,
                ),
                pushed_one ==> self.ca_boundary@.len() == entered.len() + 1
                    && self.ca_boundary@.take(entered.len() as int) == entered && -1
                    <= self.ca_boundary@.last().0 - entered.last().0 <= 1 && -1
                    <= self.ca_boundary@.last().1 - entered.last().1 <= 1 && cell(
                    self.ca_grid@,
                    self.ca_boundary@.last().0 as int,
                    self.ca_boundary@.last().1 as int,
                ) && !entered.contains(self.ca_boundary@.last()),
                pushed_one ==> self.ca_boundary@ == entered.push(self.ca_boundary@.last())
                    && probe_found_spec(
                    g0,
                    self.width as int,
                    self.height as int,
                    entered,
                    cur_cell,
                    last_dir0,
                    1,
                ) == Some((self.ca_boundary@.last(), self.bounds_last_dir)) && probe_marked_spec(
                    g0,
                    self.width as int,
                    self.height as int,
                    entered,
                    cur_cell,
                    last_dir0,
                    1,
                ) == marked_encountered as int,
                boundary_chain_ok(entered) ==> boundary_chain_ok(self.ca_boundary@),
            decreases 8 - k,
        {
            if !pushed_one {
                let d: Direction = *dirs.get((start + k) % 8).unwrap();
                let cur_pt: (i64, i64) = d.dir_from_tup(cur_cell);
                proof {
                    assert((start + k) % 8 == (last_dir0.opposite_spec().index_spec() + k as int)
                        % 8);
                    assert(d == probe_dir_spec(last_dir0, k as int));
                    assert(cur_pt == probe_pt_spec(cur_cell, d));
                }
                let in_width: bool = cur_pt.0 >= 0 && cur_pt.0 < self.width as i64;
                let in_height: bool = cur_pt.1 >= 0 && cur_pt.1 < self.height as i64;
                let not_marked: bool = !bd_contains(&self.ca_boundary, cur_pt);
                if !not_marked {
                    marked_encountered = marked_encountered + 1;
                }
                if in_width && in_height && *self.ca_grid.get(cur_pt.0 as usize).unwrap().get(
                    cur_pt.1 as usize,
                ).unwrap() && not_marked {
                    proof {
                        assert(probe_ok_spec(
                            g0,
                            self.width as int,
                            self.height as int,
                            entered,
                            cur_pt,
                        ));
                    }
                    self.ca_boundary.push(cur_pt);
                    self.bounds_last_dir = d;
                    pushed_one = true;
                } else {
                    proof {
                        assert(!probe_ok_spec(
                            g0,
                            self.width as int,
                            self.height as int,
                            entered,
                            cur_pt,
                        ));
                    }
                }
            }
            k = k + 1;
        }
        if !pushed_one {
            // Dead end: back out by one point and clear its cell, trading a
            // little cave shape for guaranteed forward progress.
            let popped: Option<(i64, i64)> = self.ca_boundary.pop();
            match popped {
                Some(p) => {
                    let w = self.width;
                    let h = self.height;
                    clear_cell(&mut self.ca_grid, w, h, p.0 as usize, p.1 as usize);
                    proof {
                        assert(p == entered.last());
                        assert(self.ca_boundary@ =~= entered.take(entered.len() - 1));
                    }
                },
                None => {},
            }
        }
        proof {
            assert(trace_tick_rel(*old(self), *self, marked_encountered >= 2));
        }
        marked_encountered >= 2
    }

    /// The smoothing stage: keeps every second boundary point, halving the
    /// polyline's density.
    pub fn smooth_cave_boundary(&mut self) -> (r: bool)
        requires
            old(self).wf(),
        ensures
            final(self).wf(),
            final(self).width == old(self).width,
            final(self).height == old(self).height,
            final(self).gen_stage == old(self).gen_stage,
            final(self).ca_grid == old(self).ca_grid,
            final(self).bounds_last_dir == old(self).bounds_last_dir,
            final(self).ca_boundary@.len() == old(self).ca_boundary@.len() / 2,
            final(self).ca_boundary@.len() <= old(self).ca_boundary@.len(),
            forall|i: int|
                0 <= i < final(self).ca_boundary@.len() ==> #[trigger] final(self).ca_boundary@[i]
                    == old(self).ca_boundary@[2 * i + 1],
            smooth_tick_rel(*old(self), *final(self)),
            r,
    {
        let n: usize = self.ca_boundary.len();
        let half: usize = n / 2;
        let mut kept: Vec<(i64, i64)> = Vec::new();
        let mut i: usize = 0;
        while i < half
            invariant
                self.ca_boundary@.len() == n,
                *self == *old(self),
                half == n / 2,
                kept@.len() == i,
                0 <= i <= half,
                forall|j: int| 0 <= j < i ==> #[trigger] kept@[j] == self.ca_boundary@[2 * j + 1],
            decreases half - i,
        {
            kept.push(*self.ca_boundary.get(2 * i + 1).unwrap());
            i = i + 1;
        }
        let ghost oldb: Seq<(i64, i64)> = self.ca_boundary@;
        self.ca_boundary = kept;
        proof {
            assert forall|j: int|
                0 <= j < self.ca_boundary@.len() implies 0 <= (#[trigger] self.ca_boundary@[j]).0
                < self.width && 0 <= self.ca_boundary@[j].1 < self.height by {
                assert(self.ca_boundary@[j] == oldb[2 * j + 1]);
            }
        }
        true
    }

    /// Advances the generation process by one unit of work and reports
    /// whether the whole multi-stage process has finished. The stages run in
    /// order: growth, boundary tracing, smoothing, closure; the stage number
    /// never regresses, and ticking a finished automaton changes nothing.
    pub fn tick(&mut self) -> (r: bool)
        requires
            old(self).wf(),
        ensures
            final(self).wf(),
            final(self).width == old(self).width,
            final(self).height == old(self).height,
            old(self).gen_stage <= final(self).gen_stage <= old(self).gen_stage + 1,
            r == (final(self).gen_stage > 3),
            old(self).gen_stage == 0 ==> growth_tick_rel(
                *old(self),
                *final(self),
                final(self).gen_stage == 1,
            ),
            old(self).gen_stage == 1 ==> trace_tick_rel(
                *old(self),
                *final(self),
                final(self).gen_stage == 2,
            ),
            old(self).gen_stage == 2 ==> smooth_tick_rel(*old(self), *final(self))
                && final(self).gen_stage == 3,
            old(self).gen_stage == 3 ==> ({
                &&& final(self).gen_stage == 4
                &&& final(self).ca_grid == old(self).ca_grid
                &&& final(self).bounds_last_dir == old(self).bounds_last_dir
                &&& final(self).ca_boundary@ == (if old(self).ca_boundary@.len() > 0 {
                    old(self).ca_boundary@.push(old(self).ca_boundary@[0])
                } else {
                    old(self).ca_boundary@
                })
            }),
            old(self).gen_stage > 3 ==> *final(self) == *old(self),
            old(self).done_closed() ==> final(self).done_closed(),
    {
        let stage_complete: bool = if self.gen_stage == 0 {
            self.tick_ca_sim()
        } else if self.gen_stage == 1 {
            self.tick_cave_boundary()
        } else if self.gen_stage == 2 {
            self.smooth_cave_boundary()
        } else if self.gen_stage == 3 {
            // Close the loop: append a copy of the first boundary point.
            if self.ca_boundary.len() > 0 {
                let first: (i64, i64) = *self.ca_boundary.get(0).unwrap();
                self.ca_boundary.push(first);
            }
            true
        } else {
            false
        };
        if stage_complete {
            self.gen_stage = self.gen_stage + 1;
        }
        self.gen_stage > 3
    }

    /// Runs `tick` until the automaton reports completion, within a generous
    /// tick budget. Returns whether generation finished; when it did, the
    /// boundary is a closed loop of in-bounds grid points.
    pub fn generate(&mut self) -> (r: bool)
        requires
            old(self).wf(),
            old(self).done_closed(),
        ensures
            final(self).wf(),
            final(self).width == old(self).width,
            final(self).height == old(self).height,
            r == (final(self).gen_stage > 3),
            r ==> boundary_closed(final(self).ca_boundary@),
            boundary_in_bounds(
                final(self).ca_boundary@,
                final(self).width as int,
                final(self).height as int,
            ),
    {
        let mut ticks: u64 = 0;
        while ticks < GENERATE_TICK_CAP
            invariant
                self.wf(),
                self.done_closed(),
                self.width == old(self).width,
                self.height == old(self).height,
                0 <= ticks <= GENERATE_TICK_CAP,
            decreases GENERATE_TICK_CAP - ticks,
        {
            if self.tick() {
                return true;
            }
            ticks = ticks + 1;
        }
        self.gen_stage > 3
    }

    /// The boundary projected to the normalized unit square, in basis
    /// points: each grid coordinate becomes `coord / dimension + shift`.
    pub fn uspace_boundary(&self, shift: Point) -> (r: Vec<Point>)
        requires
            self.wf(),
            -100_000 <= shift.x <= 100_000,
            -100_000 <= shift.y <= 100_000,
        ensures
            r@.len() == self.ca_boundary@.len(),
            forall|i: int|
                0 <= i < r@.len() ==> #[trigger] r@[i] == (Point {
                    x: (self.ca_boundary@[i].0 * BP_PER_UNIT / self.width as int + shift.x) as i64,
                    y: (self.ca_boundary@[i].1 * BP_PER_UNIT / self.height as int
                        + shift.y) as i64,
                }),
    {
        let mut pts: Vec<Point> = Vec::new();
        let mut i: usize = 0;
        while i < self.ca_boundary.len()
            invariant
                self.wf(),
                -100_000 <= shift.x <= 100_000,
                -100_000 <= shift.y <= 100_000,
                pts@.len() == i,
                0 <= i <= self.ca_boundary@.len(),
                forall|j: int|
                    0 <= j < i ==> #[trigger] pts@[j] == (Point {
                        x: (self.ca_boundary@[j].0 * BP_PER_UNIT / self.width as int
                            + shift.x) as i64,
                        y: (self.ca_boundary@[j].1 * BP_PER_UNIT / self.height as int
                            + shift.y) as i64,
                    }),
            decreases self.ca_boundary@.len() - i,
        {
            let p: (i64, i64) = *self.ca_boundary.get(i).unwrap();
            let x: i64 = p.0 * BP_PER_UNIT / self.width as i64 + shift.x;
            let y: i64 = p.1 * BP_PER_UNIT / self.height as i64 + shift.y;
            pts.push(Point::new(x, y));
            i = i + 1;
        }
        pts
    }

    /// The boundary in unit space, shifted by half a unit so the cave is
    /// centered around its destination point.
    pub fn uspace_gboundary(&self) -> (r: Vec<Point>)
        requires
            self.wf(),
        ensures
            r@.len() == self.ca_boundary@.len(),
            forall|i: int|
                0 <= i < r@.len() ==> #[trigger] r@[i] == (Point {
                    x: (self.ca_boundary@[i].0 * BP_PER_UNIT / self.width as int - 5000) as i64,
                    y: (self.ca_boundary@[i].1 * BP_PER_UNIT / self.height as int - 5000) as i64,
                }),
    {
        self.uspace_boundary(Point::new(-5000, -5000))
    }
}

} // verus!
