//! The path model: a 2-D grid of tiles with one spawn and one end, converted
//! into an ordered list of world-space checkpoints. The builder walks the
//! path tiles greedily, always taking the first remaining tile one grid step
//! away from the last placed one; on a single contiguous corridor this visits
//! every path tile exactly once.

use vstd::prelude::*;

use crate::geometry::{in_bounds, Coordinate, COORD_LIMIT};

verus! {

/// One cell of the tile grid. A path tile carries its decoration indices,
/// which the route logic ignores.
#[derive(Clone, Debug, PartialEq)]
pub enum Tile {
    Grass,
    Water,
    Spawn,
    Path(Vec<usize>),
    End,
    Empty,
}

/// A cell position on the grid, in bottom-up row order.
#[derive(Clone, Copy, Debug, PartialEq, Eq, Structural)]
pub struct Point {
    pub x: usize,
    pub y: usize,
}

/// Two grid points are exactly one cardinal grid step apart.
pub open spec fn adjacent(a: Point, b: Point) -> bool {
    (a.x - b.x) * (a.x - b.x) + (a.y - b.y) * (a.y - b.y) == 1
}

/// The world position of a grid point: the cell index scaled by the tile
/// size, with centred points lifted by half a tile.
pub open spec fn point_world(p: Point, ts: int, center: bool) -> Coordinate {
    Coordinate {
        x: (p.x * ts) as i64,
        y: (p.y * ts + if center { ts / 2 } else { 0 }) as i64,
    }
}

/// The grid point's world position fits inside the world bounds.
pub open spec fn tile_fits(p: Point, ts: int) -> bool {
    &&& 0 <= ts
    &&& p.x * ts + ts <= COORD_LIMIT
    &&& p.y * ts + ts <= COORD_LIMIT
}

impl Point {
    /// Whether the other point is exactly one cardinal grid step away.
    pub fn is_adjacent_to(self, other: Point) -> (r: bool)
        ensures
            r == adjacent(self, other),
    {
        let r = (self.x == other.x && (self.y > other.y && self.y - other.y == 1 || other.y
            > self.y && other.y - self.y == 1)) || (self.y == other.y && (self.x > other.x && self.x
            - other.x == 1 || other.x > self.x && other.x - self.x == 1));
        proof {
            let dx = self.x - other.x;
            let dy = self.y - other.y;
            assert((dx * dx + dy * dy == 1) == ((dx == 0 && (dy == 1 || dy == -1)) || (dy == 0 && (
            dx == 1 || dx == -1)))) by (nonlinear_arith);
        }
        r
    }

    /// This point's world position.
    pub fn to_coordinate(self, tile_size: usize, center: bool) -> (r: Coordinate)
        requires
            tile_fits(self, tile_size as int),
        ensures
            r == point_world(self, tile_size as int, center),
            in_bounds(r),
    {
        let x: usize = self.x * tile_size;
        let y: usize = self.y * tile_size + if center {
            tile_size / 2
        } else {
            0
        };
        Coordinate { x: x as i64, y: y as i64 }
    }
}

/// The checkpoint route of a level, in world coordinates.
pub struct MapPath {
    pub checkpoints: Vec<Coordinate>,
}

/// The tiles given in order form a contiguous chain out of the spawn cell:
/// each is one grid step from its predecessor.
pub open spec fn chain_ok(spawn: Point, tiles: Seq<Point>) -> bool {
    forall|i: int|
        0 <= i < tiles.len() ==> adjacent(
            if i == 0 {
                spawn
            } else {
                tiles[i - 1]
            },
            #[trigger] tiles[i],
        )
}

/// The tiles given in order form one contiguous corridor from the spawn cell
/// to the end cell.
pub open spec fn corridor(spawn: Point, tiles: Seq<Point>, end: Point) -> bool {
    &&& chain_ok(spawn, tiles)
    &&& adjacent(
        if tiles.len() == 0 {
            spawn
        } else {
            tiles[tiles.len() - 1]
        },
        end,
    )
}


/// The tiles in `route` order are a single unambiguous corridor from the
/// spawn cell to the end cell: they chain from beside the spawn into the
/// end, no route cell is one grid step from a route cell other than its
/// neighbours, and only the first is one step from the spawn. On such a
/// corridor the greedy walk has exactly one tile to pick at every step,
/// whatever order the tiles were handed over in.
pub open spec fn simple_corridor(spawn: Point, route: Seq<Point>, end: Point) -> bool {
    &&& corridor(spawn, route, end)
    &&& forall|i: int, j: int|
        0 <= i && i + 1 < j < route.len() ==> !adjacent(#[trigger] route[i], #[trigger] route[j])
    &&& forall|j: int| 1 <= j < route.len() ==> !adjacent(spawn, #[trigger] route[j])
}

/// In a simple corridor, the one remaining tile one grid step from the walk's
/// last point is the corridor's next cell; picking it leaves exactly the
/// corridor's tail.
proof fn lemma_corridor_pick(
    spawn: Point,
    route: Seq<Point>,
    end: Point,
    remaining: Seq<Point>,
    c: int,
    idx: int,
)
    requires
        simple_corridor(spawn, route, end),
        0 <= c < route.len(),
        remaining.to_multiset() == route.subrange(c, route.len() as int).to_multiset(),
        0 <= idx < remaining.len(),
        adjacent(
            if c == 0 {
                spawn
            } else {
                route[c - 1]
            },
            remaining[idx],
        ),
    ensures
        remaining[idx] == route[c],
        remaining.remove(idx).to_multiset() == route.subrange(
            c + 1,
            route.len() as int,
        ).to_multiset(),
{
    broadcast use vstd::seq_lib::group_to_multiset_ensures;

    let n = route.len() as int;
    let sub = route.subrange(c, n);
    assert(remaining.contains(remaining[idx]));
    assert(sub.to_multiset().count(remaining[idx]) > 0);
    assert(sub.contains(remaining[idx]));
    let j = choose|j: int| 0 <= j < sub.len() && sub[j] == remaining[idx];
    if j > 0 {
        assert(route[c + j] == remaining[idx]);
        if c == 0 {
            assert(!adjacent(spawn, route[c + j]));
        } else {
            assert(!adjacent(route[c - 1], route[c + j]));
        }
        assert(false);
    }
    assert(remaining[idx] == route[c]);
    assert(remaining.remove(idx).to_multiset() =~= remaining.to_multiset().remove(remaining[idx]));
    assert(sub.remove(0).to_multiset() =~= sub.to_multiset().remove(sub[0]));
    assert(sub.remove(0) =~= route.subrange(c + 1, n));
    assert(remaining.remove(idx).to_multiset() =~= route.subrange(c + 1, n).to_multiset());
}

/// While corridor tiles remain, one of them is one grid step from the walk's
/// last point.
proof fn lemma_corridor_next_present(
    spawn: Point,
    route: Seq<Point>,
    end: Point,
    remaining: Seq<Point>,
    c: int,
)
    requires
        simple_corridor(spawn, route, end),
        0 <= c < route.len(),
        remaining.to_multiset() == route.subrange(c, route.len() as int).to_multiset(),
    ensures
        exists|idx: int|
            0 <= idx < remaining.len() && adjacent(
                if c == 0 {
                    spawn
                } else {
                    route[c - 1]
                },
                #[trigger] remaining[idx],
            ),
{
    broadcast use vstd::seq_lib::group_to_multiset_ensures;

    let n = route.len() as int;
    let sub = route.subrange(c, n);
    assert(sub[0] == route[c]);
    assert(sub.contains(route[c]));
    assert(sub.to_multiset().count(route[c]) > 0);
    assert(remaining.contains(route[c]));
    let idx = choose|idx: int| 0 <= idx < remaining.len() && remaining[idx] == route[c];
    assert(adjacent(
        if c == 0 {
            spawn
        } else {
            route[c - 1]
        },
        remaining[idx],
    ));
}

/// The checkpoint list a corridor should produce: the spawn cell's world
/// position, then every path tile's centred world position in corridor
/// order, then the end cell's centred world position.
pub open spec fn world_route(spawn: Point, tiles: Seq<Point>, end: Point, ts: int) -> Seq<
    Coordinate,
> {
    seq![point_world(spawn, ts, false)] + tiles.map_values(|p: Point| point_world(p, ts, true))
        + seq![point_world(end, ts, true)]
}

/// In a corridor, consecutive points of the grid route — spawn, the path
/// tiles in order, end — are one grid step apart.
#[verifier::rlimit(25)]
pub proof fn lemma_corridor_steps(spawn: Point, tiles: Seq<Point>, end: Point)
    requires
        corridor(spawn, tiles, end),
    ensures
        ({
            let route = seq![spawn] + tiles + seq![end];
            forall|i: int| 0 < i < route.len() ==> adjacent(route[i - 1], #[trigger] route[i])
        }),
{
    let route = seq![spawn] + tiles + seq![end];
    assert forall|i: int| 0 < i < route.len() implies adjacent(route[i - 1], #[trigger] route[i]) by {
        if i == route.len() - 1 {
            assert(route[i] == end);
            if tiles.len() == 0 {
                assert(route[i - 1] == spawn);
            } else {
                assert(route[i - 1] == tiles[tiles.len() - 1]);
            }
        } else {
            assert(route[i] == tiles[i - 1]);
            assert(adjacent(
                if i - 1 == 0 {
                    spawn
                } else {
                    tiles[i - 2]
                },
                tiles[i - 1],
            ));
            if i == 1 {
                assert(route[i - 1] == spawn);
            } else {
                assert(route[i - 1] == tiles[i - 2]);
            }
        }
    }
}

/// Find the position of the first remaining tile adjacent to `last`.
fn find_adjacent(tiles: &Vec<Point>, last: Point) -> (r: Option<usize>)
    ensures
        match r {
            Option::Some(f) => f < tiles@.len() && adjacent(last, tiles@[f as int])
                && forall|k: int| 0 <= k < f ==> !adjacent(last, tiles@[k]),
            Option::None => forall|k: int| 0 <= k < tiles@.len() ==> !adjacent(last, tiles@[k]),
        },
{
    let mut j: usize = 0;
    while j < tiles.len()
        invariant
            j <= tiles@.len(),
            forall|k: int| 0 <= k < j ==> !adjacent(last, tiles@[k]),
        decreases tiles@.len() - j,
    {
        if last.is_adjacent_to(tiles[j]) {
            return Option::Some(j);
        }
        j = j + 1;
    }
    Option::None
}

/// A grid point lies on the grid, reading rows bottom-up.
pub open spec fn valid_point(grid: Seq<Vec<Tile>>, p: Point) -> bool {
    &&& p.y < grid.len()
    &&& p.x < grid[grid.len() - 1 - p.y]@.len()
}

/// The tile at a grid point, reading rows bottom-up.
pub open spec fn cell_at(grid: Seq<Vec<Tile>>, p: Point) -> Tile {
    grid[grid.len() - 1 - p.y]@[p.x as int]
}

/// A grid point was scanned before reaching row `y`, column `x`.
spec fn scanned(p: Point, y: int, x: int) -> bool {
    p.y < y || (p.y == y && p.x < x)
}

/// Scan the grid bottom-up for the spawn cell, the path cells, and the end
/// cell. Yields nothing when the grid holds no spawn or no end — a malformed
/// map the caller must reject. Otherwise yields a spawn cell, every path
/// cell (in bottom-up, left-to-right order), and an end cell.
#[verifier::loop_isolation(false)]
pub fn scan_tiles(tiles: &Vec<Vec<Tile>>) -> (r: Option<(Point, Vec<Point>, Point)>)
    ensures
        match r {
            Option::None => !(exists|p: Point|
                valid_point(tiles@, p) && cell_at(tiles@, p) is Spawn) || !(exists|p: Point|
                valid_point(tiles@, p) && cell_at(tiles@, p) is End),
            Option::Some(found) => {
                &&& valid_point(tiles@, found.0) && cell_at(tiles@, found.0) is Spawn
                &&& valid_point(tiles@, found.2) && cell_at(tiles@, found.2) is End
                &&& forall|k: int|
                    0 <= k < found.1@.len() ==> valid_point(tiles@, #[trigger] found.1@[k])
                        && cell_at(tiles@, found.1@[k]) is Path
                &&& forall|p: Point|
                    valid_point(tiles@, p) && (#[trigger] cell_at(tiles@, p)) is Path
                        ==> found.1@.contains(p)
            },
        },
{
    let height = tiles.len();
    let mut spawn: Option<Point> = Option::None;
    let mut end_p: Option<Point> = Option::None;
    let mut path: Vec<Point> = Vec::new();
    let mut y: usize = 0;
    while y < height
        invariant
            y <= height,
            match spawn {
                Option::None => forall|p: Point|
                    valid_point(tiles@, p) && scanned(p, y as int, 0) ==> !((#[trigger] cell_at(
                        tiles@,
                        p,
                    )) is Spawn),
                Option::Some(s) => valid_point(tiles@, s) && cell_at(tiles@, s) is Spawn,
            },
            match end_p {
                Option::None => forall|p: Point|
                    valid_point(tiles@, p) && scanned(p, y as int, 0) ==> !((#[trigger] cell_at(
                        tiles@,
                        p,
                    )) is End),
                Option::Some(e) => valid_point(tiles@, e) && cell_at(tiles@, e) is End,
            },
            forall|k: int|
                0 <= k < path@.len() ==> valid_point(tiles@, #[trigger] path@[k]) && cell_at(
                    tiles@,
                    path@[k],
                ) is Path,
            forall|p: Point|
                valid_point(tiles@, p) && scanned(p, y as int, 0) && (#[trigger] cell_at(
                    tiles@,
                    p,
                )) is Path ==> path@.contains(p),
        decreases height - y,
    {
        let row_index = height - 1 - y;
        let row_len = tiles[row_index].len();
        let mut x: usize = 0;
        while x < row_len
            invariant
                x <= row_len,
                match spawn {
                    Option::None => forall|p: Point|
                        valid_point(tiles@, p) && scanned(p, y as int, x as int) ==> !((
                        #[trigger] cell_at(tiles@, p)) is Spawn),
                    Option::Some(s) => valid_point(tiles@, s) && cell_at(tiles@, s) is Spawn,
                },
                match end_p {
                    Option::None => forall|p: Point|
                        valid_point(tiles@, p) && scanned(p, y as int, x as int) ==> !((
                        #[trigger] cell_at(tiles@, p)) is End),
                    Option::Some(e) => valid_point(tiles@, e) && cell_at(tiles@, e) is End,
                },
                forall|k: int|
                    0 <= k < path@.len() ==> valid_point(tiles@, #[trigger] path@[k]) && cell_at(
                        tiles@,
                        path@[k],
                    ) is Path,
                forall|p: Point|
                    valid_point(tiles@, p) && scanned(p, y as int, x as int) && (#[trigger] cell_at(
                        tiles@,
                        p,
                    )) is Path ==> path@.contains(p),
            decreases row_len - x,
        {
            let here = Point { x, y };
            let ghost pre = path@;
            match &tiles[row_index][x] {
                Tile::Spawn => {
                    spawn = Option::Some(here);
                },
                Tile::Path(_) => {
                    path.push(here);
                },
                Tile::End => {
                    end_p = Option::Some(here);
                },
                _ => {},
            }
            proof {
                assert(cell_at(tiles@, here) == tiles@[row_index as int]@[x as int]);
                assert(forall|p: Point| pre.contains(p) ==> path@.contains(p)) by {
                    assert(forall|i: int| 0 <= i < pre.len() ==> path@[i] == pre[i]);
                }
                if cell_at(tiles@, here) is Path {
                    assert(path@[path@.len() - 1] == here);
                    assert(path@.contains(here));
                }
                assert(forall|p: Point|
                    valid_point(tiles@, p) && scanned(p, y as int, x as int + 1) && !scanned(
                        p,
                        y as int,
                        x as int,
                    ) ==> p == here);
            }
            x = x + 1;
        }
        proof {
            assert(forall|p: Point|
                valid_point(tiles@, p) && scanned(p, y as int + 1, 0) ==> scanned(
                    p,
                    y as int,
                    row_len as int,
                ));
        }
        y = y + 1;
    }
    match (spawn, end_p) {
        (Option::Some(s), Option::Some(e)) => Option::Some((s, path, e)),
        _ => Option::None,
    }
}


/// The built route matches the grid: its first checkpoint is a spawn cell's
/// world position and its last an end cell's, its inner checkpoints come
/// from the grid's path cells (every path cell scanned, the walk covering at
/// most all of them), and when the scanned path cells chain out of the spawn
/// in scan order the route is exactly their corridor.
pub open spec fn grid_route_ok(
    grid: Seq<Vec<Tile>>,
    ts: int,
    checkpoints: Seq<Coordinate>,
    s: Point,
    path: Seq<Point>,
    e: Point,
) -> bool {
    &&& valid_point(grid, s) && cell_at(grid, s) is Spawn
    &&& valid_point(grid, e) && cell_at(grid, e) is End
    &&& forall|k: int|
        0 <= k < path.len() ==> valid_point(grid, #[trigger] path[k]) && cell_at(
            grid,
            path[k],
        ) is Path
    &&& forall|p: Point|
        valid_point(grid, p) && (#[trigger] cell_at(grid, p)) is Path ==> path.contains(p)
    &&& 2 <= checkpoints.len() <= path.len() + 2
    &&& checkpoints[0] == point_world(s, ts, false)
    &&& checkpoints[checkpoints.len() - 1] == point_world(e, ts, true)
    &&& (chain_ok(s, path) ==> checkpoints == world_route(s, path, e, ts))
    &&& forall|route: Seq<Point>|
        #[trigger] simple_corridor(s, route, e) && path.to_multiset() == route.to_multiset()
            ==> checkpoints == world_route(s, route, e, ts) && checkpoints.len() == path.len() + 2
}

/// A tile map: the grid, the tile size in world units per cell, and the
/// checkpoint route built from the grid.
pub struct TileMap {
    pub width: usize,
    pub height: usize,
    pub tiles: Vec<Vec<Tile>>,
    pub tile_size: usize,
    pub checkpoints: Vec<Coordinate>,
}

impl TileMap {
    /// Build the checkpoint route: the spawn cell's world position first,
    /// then, repeatedly, the first remaining path tile one grid step from the
    /// last placed one (centred on its cell), and the end cell's world
    /// position last. On a corridor — the tiles, in the order given, chain
    /// out of the spawn and into the end — every tile is consumed in order,
    /// so the route holds exactly (path tile count + 2) checkpoints.
    /// Build the checkpoint route from the grid itself: scan for the spawn,
    /// path, and end cells, then walk the path. Yields false — leaving the
    /// route empty — exactly when the grid lacks a spawn or an end cell, a
    /// malformed map the caller must treat as fatal.
    pub fn build_checkpoints(&mut self) -> (r: bool)
        requires
            old(self).checkpoints@.len() == 0,
            old(self).tiles@.len() * (old(self).tile_size as int) + old(self).tile_size
                <= COORD_LIMIT,
            forall|k: int|
                0 <= k < old(self).tiles@.len() ==> (#[trigger] old(self).tiles@[k])@.len() * (old(
                    self,
                ).tile_size as int) + old(self).tile_size <= COORD_LIMIT,
        ensures
            final(self).width == old(self).width,
            final(self).height == old(self).height,
            final(self).tiles == old(self).tiles,
            final(self).tile_size == old(self).tile_size,
            r == ((exists|p: Point|
                valid_point(old(self).tiles@, p) && (#[trigger] cell_at(
                    old(self).tiles@,
                    p,
                )) is Spawn) && (exists|p: Point|
                valid_point(old(self).tiles@, p) && (#[trigger] cell_at(
                    old(self).tiles@,
                    p,
                )) is End)),
            !r ==> final(self).checkpoints@.len() == 0,
            r ==> 2 <= final(self).checkpoints@.len(),
            r ==> forall|i: int|
                0 <= i < final(self).checkpoints@.len() ==> in_bounds(
                    #[trigger] final(self).checkpoints@[i],
                ),
    {
        match scan_tiles(&self.tiles) {
            Option::Some((s, path, e)) => {
                proof {
                    let ts = self.tile_size as int;
                    let grid = self.tiles@;
                    assert forall|p: Point| valid_point(grid, p) implies tile_fits(p, ts) by {
                        let row = grid.len() - 1 - p.y;
                        assert(grid[row]@.len() * ts + ts <= COORD_LIMIT);
                        assert(p.x * ts + ts <= grid[row]@.len() * ts) by (nonlinear_arith)
                            requires p.x < grid[row]@.len() && ts >= 0;
                        assert(p.y * ts + ts <= grid.len() * ts) by (nonlinear_arith)
                            requires p.y < grid.len() && ts >= 0;
                    }
                }
                let ghost path_cells = path@;
                self.create_checkpoints(path, s, e);
                proof {
                    assert(grid_route_ok(
                        old(self).tiles@,
                        old(self).tile_size as int,
                        self.checkpoints@,
                        s,
                        path_cells,
                        e,
                    ));
                }
                true
            },
            Option::None => false,
        }
    }

    #[verifier::loop_isolation(false)]
    pub fn create_checkpoints(&mut self, path_tiles: Vec<Point>, spawn: Point, end: Point)
        requires
            old(self).checkpoints@.len() == 0,
            tile_fits(spawn, old(self).tile_size as int),
            tile_fits(end, old(self).tile_size as int),
            forall|k: int|
                0 <= k < path_tiles@.len() ==> tile_fits(
                    #[trigger] path_tiles@[k],
                    old(self).tile_size as int,
                ),
        ensures
            final(self).width == old(self).width,
            final(self).height == old(self).height,
            final(self).tiles == old(self).tiles,
            final(self).tile_size == old(self).tile_size,
            2 <= final(self).checkpoints@.len() <= path_tiles@.len() + 2,
            final(self).checkpoints@[0] == point_world(spawn, old(self).tile_size as int, false),
            final(self).checkpoints@[final(self).checkpoints@.len() - 1] == point_world(
                end,
                old(self).tile_size as int,
                true,
            ),
            forall|i: int|
                0 <= i < final(self).checkpoints@.len() ==> in_bounds(
                    #[trigger] final(self).checkpoints@[i],
                ),
            chain_ok(spawn, path_tiles@) ==> final(self).checkpoints@ == world_route(
                spawn,
                path_tiles@,
                end,
                old(self).tile_size as int,
            ),
            chain_ok(spawn, path_tiles@) ==> final(self).checkpoints@.len() == path_tiles@.len()
                + 2,
            forall|route: Seq<Point>|
                #[trigger] simple_corridor(spawn, route, end) && path_tiles@.to_multiset()
                    == route.to_multiset() ==> final(self).checkpoints@ == world_route(
                    spawn,
                    route,
                    end,
                    old(self).tile_size as int,
                ) && final(self).checkpoints@.len() == path_tiles@.len() + 2,
    {
        let ghost tiles0 = path_tiles@;
        let ghost ts = self.tile_size as int;
        let ghost n = tiles0.len();
        let mut tiles = path_tiles;
        let mut last_point = spawn;
        let first = spawn.to_coordinate(self.tile_size, false);
        self.checkpoints.push(first);
        proof {
            broadcast use vstd::seq_lib::group_to_multiset_ensures;

            assert forall|route: Seq<Point>|
                #[trigger] simple_corridor(spawn, route, end) && tiles0.to_multiset()
                    == route.to_multiset() implies route.len() == n && tiles@.to_multiset()
                == route.subrange(0, n as int).to_multiset() && self.checkpoints@ == seq![
                point_world(spawn, ts, false),
            ] + route.subrange(0, 0).map_values(|p: Point| point_world(p, ts, true)) by {
                assert(tiles0.to_multiset().len() == tiles0.len());
                assert(route.to_multiset().len() == route.len());
                assert(route.len() == n);
                assert(route.subrange(0, n as int) =~= route);
                assert(self.checkpoints@ =~= seq![point_world(spawn, ts, false)] + route.subrange(
                    0,
                    0,
                ).map_values(|p: Point| point_world(p, ts, true)));
            }
        }
        loop
            invariant
                self.width == old(self).width,
                self.height == old(self).height,
                self.tiles == old(self).tiles,
                self.tile_size == old(self).tile_size,
                ts == self.tile_size as int,
                n == tiles0.len(),
                tiles@.len() <= n,
                tile_fits(end, ts),
                forall|k: int| 0 <= k < tiles@.len() ==> tile_fits(#[trigger] tiles@[k], ts),
                self.checkpoints@.len() == 1 + n - tiles@.len(),
                self.checkpoints@[0] == point_world(spawn, ts, false),
                forall|i: int|
                    0 <= i < self.checkpoints@.len() ==> in_bounds(#[trigger] self.checkpoints@[i]),
                chain_ok(spawn, tiles0) ==> {
                    let consumed = n - tiles@.len();
                    &&& tiles@ == tiles0.subrange(consumed as int, n as int)
                    &&& last_point == if consumed == 0 {
                        spawn
                    } else {
                        tiles0[consumed - 1]
                    }
                    &&& self.checkpoints@ == seq![point_world(spawn, ts, false)] + tiles0.subrange(
                        0,
                        consumed as int,
                    ).map_values(|p: Point| point_world(p, ts, true))
                },
                forall|route: Seq<Point>|
                    #[trigger] simple_corridor(spawn, route, end) && tiles0.to_multiset()
                        == route.to_multiset() ==> {
                        let consumed = n - tiles@.len();
                        &&& route.len() == n
                        &&& tiles@.to_multiset() == route.subrange(
                            consumed as int,
                            n as int,
                        ).to_multiset()
                        &&& last_point == if consumed == 0 {
                            spawn
                        } else {
                            route[consumed - 1]
                        }
                        &&& self.checkpoints@ == seq![point_world(spawn, ts, false)]
                            + route.subrange(0, consumed as int).map_values(
                            |p: Point| point_world(p, ts, true),
                        )
                    },
            decreases tiles@.len(),
        {
            let ghost consumed = n - tiles@.len();
            match find_adjacent(&tiles, last_point) {
                Option::Some(idx) => {
                    proof {
                        if chain_ok(spawn, tiles0) {
                            if consumed < n {
                                assert(adjacent(
                                    if consumed == 0 {
                                        spawn
                                    } else {
                                        tiles0[consumed as int - 1]
                                    },
                                    tiles0[consumed as int],
                                ));
                                assert(tiles@[0] == tiles0[consumed as int]);
                                assert(idx == 0);
                            }
                        }
                    }
                    let ghost pre = tiles@;
                    let next = tiles.remove(idx);
                    let world = next.to_coordinate(self.tile_size, true);
                    self.checkpoints.push(world);
                    last_point = next;
                    proof {
                        assert(forall|k: int|
                            0 <= k < tiles@.len() ==> tiles@[k] == if k < idx {
                                pre[k]
                            } else {
                                pre[k + 1]
                            });
                        if chain_ok(spawn, tiles0) {
                            assert(tiles@ =~= tiles0.subrange(consumed as int + 1, n as int));
                            assert(self.checkpoints@ =~= seq![point_world(spawn, ts, false)]
                                + tiles0.subrange(0, consumed as int + 1).map_values(
                                |p: Point| point_world(p, ts, true),
                            ));
                        }
                        assert forall|route: Seq<Point>|
                            #[trigger] simple_corridor(spawn, route, end) && tiles0.to_multiset()
                                == route.to_multiset() implies route.len() == n
                            && tiles@.to_multiset() == route.subrange(
                            consumed as int + 1,
                            n as int,
                        ).to_multiset() && last_point == route[consumed as int]
                            && self.checkpoints@ == seq![point_world(spawn, ts, false)]
                            + route.subrange(0, consumed as int + 1).map_values(
                            |p: Point| point_world(p, ts, true),
                        ) by {
                            broadcast use vstd::seq_lib::group_to_multiset_ensures;

                            assert(tiles0.to_multiset().len() == tiles0.len());
                            assert(route.to_multiset().len() == route.len());
                            assert(route.len() == n);
                            lemma_corridor_pick(spawn, route, end, pre, consumed as int, idx as int);
                            assert(tiles@ == pre.remove(idx as int));
                            assert(self.checkpoints@ =~= seq![point_world(spawn, ts, false)]
                                + route.subrange(0, consumed as int + 1).map_values(
                                |p: Point| point_world(p, ts, true),
                            ));
                        }
                    }
                },
                Option::None => {
                    let world = end.to_coordinate(self.tile_size, true);
                    self.checkpoints.push(world);
                    proof {
                        if chain_ok(spawn, tiles0) {
                            if tiles@.len() > 0 {
                                assert(adjacent(
                                    if consumed == 0 {
                                        spawn
                                    } else {
                                        tiles0[consumed as int - 1]
                                    },
                                    tiles0[consumed as int],
                                ));
                                assert(tiles@[0] == tiles0[consumed as int]);
                                assert(false);
                            }
                            assert(self.checkpoints@ =~= world_route(spawn, tiles0, end, ts));
                        }
                        assert forall|route: Seq<Point>|
                            #[trigger] simple_corridor(spawn, route, end) && tiles0.to_multiset()
                                == route.to_multiset() implies self.checkpoints@ == world_route(
                            spawn,
                            route,
                            end,
                            ts,
                        ) && self.checkpoints@.len() == tiles0.len() + 2 by {
                            broadcast use vstd::seq_lib::group_to_multiset_ensures;

                            assert(tiles0.to_multiset().len() == tiles0.len());
                            assert(route.to_multiset().len() == route.len());
                            assert(route.len() == n);
                            if tiles@.len() > 0 {
                                lemma_corridor_next_present(
                                    spawn,
                                    route,
                                    end,
                                    tiles@,
                                    consumed as int,
                                );
                                assert(false);
                            }
                            assert(route.subrange(0, n as int) =~= route);
                            assert(self.checkpoints@ =~= world_route(spawn, route, end, ts));
                        }
                    }
                    return ;
                },
            }
        }
    }
}

} // verus!
