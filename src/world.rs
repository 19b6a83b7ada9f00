use vstd::prelude::*;
use crate::{coord_ok, Vec2, COORD_LIMIT};

verus! {

/// One layer of the tile map: a global tile id (0 for an empty cell) per
/// cell, row by row, with the map's size in cells and a tile's size in
/// world units.
pub struct WorldTiles {
    pub layer0: Vec<Vec<u32>>,
    pub map_size: (u32, u32),
    pub tile_size: (u32, u32),
}

/// A tile of the tileset and the semantic type the map gives it.
pub struct TileProps {
    pub id: u32,
    pub tile_type: Option<String>,
}

/// The tileset index of the tile at `(x, y)`: its global id minus one, or
/// nothing for an empty or missing cell.
pub open spec fn tile_id_spec(layer: Seq<Vec<u32>>, x: int, y: int) -> Option<usize> {
    if 0 <= y < layer.len() && 0 <= x < layer[y]@.len() && layer[y]@[x] > 0 {
        Some((layer[y]@[x] - 1) as usize)
    } else {
        None
    }
}

/// The type of tile `id`: that of the first tileset entry with this id, or
/// empty when it has none or there is no such entry.
pub open spec fn tile_type_spec(tiles: Seq<TileProps>, id: int) -> Seq<char>
    decreases tiles.len(),
{
    if tiles.len() == 0 {
        Seq::empty()
    } else if tiles[0].id == id {
        match tiles[0].tile_type {
            Some(t) => t@,
            None => Seq::empty(),
        }
    } else {
        tile_type_spec(tiles.drop_first(), id)
    }
}

impl WorldTiles {
    /// The tileset index of the tile at `(x, y)`.
    pub fn get_id(&self, x: usize, y: usize) -> (r: Option<usize>)
        ensures
            r == tile_id_spec(self.layer0@, x as int, y as int),
    {
        if y < self.layer0.len() && x < self.layer0[y].len() {
            let gid = self.layer0[y][x];
            if gid > 0 {
                Some((gid - 1) as usize)
            } else {
                None
            }
        } else {
            None
        }
    }
}

/// The type the tileset gives tile `tile_id`.
pub fn tile_type(tileset: &Vec<TileProps>, tile_id: usize) -> (r: String)
    ensures
        r@ == tile_type_spec(tileset@, tile_id as int),
{
    let mut i: usize = 0;
    assert(tileset@.subrange(0, tileset@.len() as int) =~= tileset@);
    while i < tileset.len()
        invariant
            0 <= i <= tileset@.len(),
            tile_type_spec(tileset@, tile_id as int) == tile_type_spec(
                tileset@.subrange(i as int, tileset@.len() as int),
                tile_id as int,
            ),
        decreases tileset@.len() - i,
    {
        assert(tileset@.subrange(i as int, tileset@.len() as int).drop_first() =~= tileset@.subrange(
            i + 1,
            tileset@.len() as int,
        ));
        if tileset[i].id as usize == tile_id {
            match &tileset[i].tile_type {
                Some(t) => {
                    return t.clone();
                },
                None => {
                    return String::new();
                },
            }
        }
        i = i + 1;
    }
    String::new()
}

/// Whether tile `tile_id` is a fence.
pub fn is_fence(tileset: &Vec<TileProps>, tile_id: usize) -> (r: bool)
    ensures
        r == (tile_type_spec(tileset@, tile_id as int) == "f"@),
{
    let t = tile_type(tileset, tile_id);
    let f = "f".to_owned();
    t == f
}

/// A spawn marker of the object layer.
#[derive(PartialEq, Eq, Structural, Clone, Copy, Debug)]
pub enum Marker {
    Goblin,
    /// A waypoint of the given patrol group, from 1 to 5.
    Waypoint(usize),
    Pylon,
    Player,
}

/// The marker a tile type names, if any.
pub open spec fn marker_spec(t: Seq<char>) -> Option<Marker> {
    if t == "Goblin"@ {
        Some(Marker::Goblin)
    } else if t == "Waypoint1"@ {
        Some(Marker::Waypoint(1))
    } else if t == "Waypoint2"@ {
        Some(Marker::Waypoint(2))
    } else if t == "Waypoint3"@ {
        Some(Marker::Waypoint(3))
    } else if t == "Waypoint4"@ {
        Some(Marker::Waypoint(4))
    } else if t == "Waypoint5"@ {
        Some(Marker::Waypoint(5))
    } else if t == "Pylon"@ {
        Some(Marker::Pylon)
    } else if t == "Player"@ {
        Some(Marker::Player)
    } else {
        None
    }
}

/// The marker a tile type names, if any.
pub fn marker_of(t: &String) -> (r: Option<Marker>)
    ensures
        r == marker_spec(t@),
{
    if *t == "Goblin".to_owned() {
        Some(Marker::Goblin)
    } else if *t == "Waypoint1".to_owned() {
        Some(Marker::Waypoint(1))
    } else if *t == "Waypoint2".to_owned() {
        Some(Marker::Waypoint(2))
    } else if *t == "Waypoint3".to_owned() {
        Some(Marker::Waypoint(3))
    } else if *t == "Waypoint4".to_owned() {
        Some(Marker::Waypoint(4))
    } else if *t == "Waypoint5".to_owned() {
        Some(Marker::Waypoint(5))
    } else if *t == "Pylon".to_owned() {
        Some(Marker::Pylon)
    } else if *t == "Player".to_owned() {
        Some(Marker::Player)
    } else {
        None
    }
}

/// A waypoint marker: where it stands and its patrol group.
#[derive(PartialEq, Eq, Structural, Clone, Copy, Debug)]
pub struct WaypointSpot {
    pub pos: Vec2,
    pub group: usize,
}

/// Squared distance between two points.
pub open spec fn dist2(ax: int, ay: int, b: Vec2) -> int {
    (ax - b.x) * (ax - b.x) + (ay - b.y) * (ay - b.y)
}

/// Whether waypoint `w` may be chosen: any waypoint when no group is
/// asked for, else one of the group just below `of_type`.
pub open spec fn eligible(w: WaypointSpot, of_type: Option<usize>) -> bool {
    match of_type {
        Some(t) => w.group + 1 == t,
        None => true,
    }
}

/// The closest eligible waypoint among the first `n` and its squared
/// distance: the first one at the least distance, or `(0, i64::MAX)` when
/// none is eligible.
pub open spec fn closest_spec(tx: int, ty: int, ws: Seq<WaypointSpot>, of_type: Option<usize>, n: int) -> (
    int,
    int,
)
    decreases n,
{
    if n <= 0 {
        (0, i64::MAX as int)
    } else {
        let p = closest_spec(tx, ty, ws, of_type, n - 1);
        let d = dist2(tx, ty, ws[n - 1].pos);
        if eligible(ws[n - 1], of_type) && d < p.1 {
            (n - 1, d)
        } else {
            p
        }
    }
}

/// Every waypoint lies in the supported range, with room for a difference.
pub open spec fn spots_ok(ws: Seq<WaypointSpot>) -> bool {
    forall|i: int| 0 <= i < ws.len() ==> half_range(#[trigger] ws[i].pos)
}

/// Both components lie within half the supported range.
pub open spec fn half_range(v: Vec2) -> bool {
    -(COORD_LIMIT as int) / 2 <= v.x <= COORD_LIMIT as int / 2 && -(COORD_LIMIT as int) / 2 <= v.y
        <= COORD_LIMIT as int / 2
}

/// Squared distance between two points within half the supported range.
fn dist2_exec(tx: i64, ty: i64, b: Vec2) -> (r: i64)
    requires
        half_range(Vec2 { x: tx, y: ty }),
        half_range(b),
    ensures
        r as int == dist2(tx as int, ty as int, b),
{
    let dx = tx - b.x;
    let dy = ty - b.y;
    assert(0 <= dx * dx <= COORD_LIMIT * COORD_LIMIT) by (nonlinear_arith)
        requires
            coord_ok(dx as int),
    ;
    assert(0 <= dy * dy <= COORD_LIMIT * COORD_LIMIT) by (nonlinear_arith)
        requires
            coord_ok(dy as int),
    ;
    dx * dx + dy * dy
}

/// The closest eligible waypoint to `(tx, ty)` and its squared distance;
/// see `closest_spec`.
pub fn closest_waypoint(tx: i64, ty: i64, waypoints: &Vec<WaypointSpot>, of_type: Option<usize>) -> (r: (
    usize,
    i64,
))
    requires
        half_range(Vec2 { x: tx, y: ty }),
        spots_ok(waypoints@),
    ensures
        (r.0 as int, r.1 as int) == closest_spec(
            tx as int,
            ty as int,
            waypoints@,
            of_type,
            waypoints@.len() as int,
        ),
{
    let mut best: usize = 0;
    let mut best_distance: i64 = i64::MAX;
    let mut i: usize = 0;
    while i < waypoints.len()
        invariant
            0 <= i <= waypoints@.len(),
            half_range(Vec2 { x: tx, y: ty }),
            spots_ok(waypoints@),
            (best as int, best_distance as int) == closest_spec(
                tx as int,
                ty as int,
                waypoints@,
                of_type,
                i as int,
            ),
        decreases waypoints@.len() - i,
    {
        let w = waypoints[i];
        assert(half_range(waypoints@[i as int].pos));
        let distance = dist2_exec(tx, ty, w.pos);
        let ok = match of_type {
            Some(t) => w.group < usize::MAX && w.group + 1 == t,
            None => true,
        };
        if ok && distance < best_distance {
            best = i;
            best_distance = distance;
        }
        i = i + 1;
    }
    (best, best_distance)
}

/// The waypoint each waypoint leads to: one of group above 1 leads to the
/// closest waypoint of the group just below; the others lead nowhere, as
/// does one whose lower group is empty.
pub open spec fn link_spec(ws: Seq<WaypointSpot>, i: int) -> Option<usize> {
    if ws[i].group > 1 {
        let c = closest_spec(ws[i].pos.x as int, ws[i].pos.y as int, ws, Some(ws[i].group), ws.len() as int);
        if c.1 < i64::MAX { Some(c.0 as usize) } else { None }
    } else {
        None
    }
}

/// Links each waypoint to the next of its patrol route; see `link_spec`.
pub fn follow_waypoints(waypoints: &Vec<WaypointSpot>) -> (r: Vec<Option<usize>>)
    requires
        spots_ok(waypoints@),
    ensures
        r@.len() == waypoints@.len(),
        forall|i: int| 0 <= i < waypoints@.len() ==> #[trigger] r@[i] == link_spec(waypoints@, i),
{
    let mut r: Vec<Option<usize>> = Vec::new();
    let mut i: usize = 0;
    while i < waypoints.len()
        invariant
            0 <= i <= waypoints@.len(),
            spots_ok(waypoints@),
            r@.len() == i,
            forall|j: int| 0 <= j < i ==> #[trigger] r@[j] == link_spec(waypoints@, j),
        decreases waypoints@.len() - i,
    {
        let w = waypoints[i];
        assert(half_range(waypoints@[i as int].pos));
        if w.group > 1 {
            let (best, distance) = closest_waypoint(w.pos.x, w.pos.y, waypoints, Some(w.group));
            if distance < i64::MAX {
                r.push(Some(best));
            } else {
                r.push(None);
            }
        } else {
            r.push(None);
        }
        i = i + 1;
    }
    r
}

} // verus!

verus! {

/// The waypoint reached from `start` after `k` steps along the links, or
/// nothing once the route has ended.
pub open spec fn route(ws: Seq<WaypointSpot>, start: int, k: nat) -> Option<int>
    decreases k,
{
    if k == 0 {
        Some(start)
    } else {
        match route(ws, start, (k - 1) as nat) {
            Some(i) => match link_spec(ws, i) {
                Some(j) => Some(j as int),
                None => None,
            },
            None => None,
        }
    }
}

/// A found closest waypoint is eligible and lies among the first `n`.
proof fn lemma_closest_found(tx: int, ty: int, ws: Seq<WaypointSpot>, of_type: Option<usize>, n: int)
    requires
        0 <= n <= ws.len(),
    ensures
        closest_spec(tx, ty, ws, of_type, n).1 < i64::MAX ==> 0 <= closest_spec(
            tx,
            ty,
            ws,
            of_type,
            n,
        ).0 < n && eligible(ws[closest_spec(tx, ty, ws, of_type, n).0], of_type),
    decreases n,
{
    if n > 0 {
        lemma_closest_found(tx, ty, ws, of_type, n - 1);
    }
}

/// Each step of a route goes one patrol group down.
proof fn lemma_link_descends(ws: Seq<WaypointSpot>, i: int)
    requires
        0 <= i < ws.len() <= usize::MAX,
    ensures
        match link_spec(ws, i) {
            Some(j) => 0 <= j < ws.len() && ws[j as int].group + 1 == ws[i].group,
            None => true,
        },
{
    if ws[i].group > 1 {
        lemma_closest_found(
            ws[i].pos.x as int,
            ws[i].pos.y as int,
            ws,
            Some(ws[i].group),
            ws.len() as int,
        );
    }
}

/// After `k` steps a route stands `k` patrol groups below its start.
proof fn lemma_route_group(ws: Seq<WaypointSpot>, start: int, k: nat)
    requires
        0 <= start < ws.len() <= usize::MAX,
    ensures
        match route(ws, start, k) {
            Some(i) => 0 <= i < ws.len() && ws[i].group + k == ws[start].group,
            None => true,
        },
    decreases k,
{
    if k > 0 {
        lemma_route_group(ws, start, (k - 1) as nat);
        match route(ws, start, (k - 1) as nat) {
            Some(i) => lemma_link_descends(ws, i),
            None => {},
        }
    }
}

/// Patrol routes terminate and never revisit a waypoint: from any start,
/// the waypoints reached after `k1 < k2` steps differ, and the route has
/// ended after more steps than the start's patrol group.
pub proof fn lemma_patrol_route_terminates(ws: Seq<WaypointSpot>, start: int, k1: nat, k2: nat)
    requires
        0 <= start < ws.len() <= usize::MAX,
        k1 < k2,
    ensures
        route(ws, start, k1) is Some && route(ws, start, k2) is Some ==> route(ws, start, k1)
            != route(ws, start, k2),
        k2 > ws[start].group ==> route(ws, start, k2) is None,
{
    lemma_route_group(ws, start, k1);
    lemma_route_group(ws, start, k2);
}

} // verus!

verus! {

/// Largest map side, in cells, and largest tile side, in world units.
pub const MAX_MAP_SIDE: u32 = 16384;

/// What the map asks to be spawned, in the order of its cells.
pub struct WorldLayout {
    pub fences: Vec<Vec2>,
    pub goblins: Vec<Vec2>,
    pub waypoints: Vec<WaypointSpot>,
    pub pylons: Vec<Vec2>,
    pub players: Vec<Vec2>,
}

/// The lists of a `WorldLayout`, as sequences.
pub struct LayoutView {
    pub fences: Seq<Vec2>,
    pub goblins: Seq<Vec2>,
    pub waypoints: Seq<WaypointSpot>,
    pub pylons: Seq<Vec2>,
    pub players: Seq<Vec2>,
}

impl View for WorldLayout {
    type V = LayoutView;

    open spec fn view(&self) -> LayoutView {
        LayoutView {
            fences: self.fences@,
            goblins: self.goblins@,
            waypoints: self.waypoints@,
            pylons: self.pylons@,
            players: self.players@,
        }
    }
}

/// The map's size and tile size are within bounds.
pub open spec fn map_ok(map: &WorldTiles) -> bool {
    &&& map.map_size.0 <= MAX_MAP_SIDE
    &&& map.map_size.1 <= MAX_MAP_SIDE
    &&& map.tile_size.0 <= MAX_MAP_SIDE
    &&& map.tile_size.1 <= MAX_MAP_SIDE
}

/// World position of cell `(x, y)`: the map is centred on the origin, with
/// row 0 at the top.
pub open spec fn cell_pos(map: &WorldTiles, x: int, y: int) -> Vec2 {
    let (mw, mh) = (map.map_size.0 as int, map.map_size.1 as int);
    let (tw, th) = (map.tile_size.0 as int, map.tile_size.1 as int);
    Vec2 { x: (x * tw - tw * mw / 2) as i64, y: (th * mh / 2 - y * th) as i64 }
}

/// The layout after `n` cells, row by row: a fence for every terrain tile
/// of type `f`, and the markers of the object layer sorted by kind.
pub open spec fn layout_spec(map: &WorldTiles, objects: &WorldTiles, tileset: Seq<TileProps>, n: int) -> LayoutView
    decreases n,
{
    if n <= 0 || map.map_size.0 == 0 {
        LayoutView {
            fences: Seq::empty(),
            goblins: Seq::empty(),
            waypoints: Seq::empty(),
            pylons: Seq::empty(),
            players: Seq::empty(),
        }
    } else {
        let p = layout_spec(map, objects, tileset, n - 1);
        let c = n - 1;
        let (x, y) = (c % map.map_size.0 as int, c / map.map_size.0 as int);
        let pos = cell_pos(map, x, y);
        let fences = match tile_id_spec(map.layer0@, x, y) {
            Some(t) => if tile_type_spec(tileset, t as int) == "f"@ {
                p.fences.push(pos)
            } else {
                p.fences
            },
            None => p.fences,
        };
        let marker = match tile_id_spec(objects.layer0@, x, y) {
            Some(o) => marker_spec(tile_type_spec(tileset, o as int)),
            None => None,
        };
        match marker {
            Some(Marker::Goblin) => LayoutView { fences, goblins: p.goblins.push(pos), ..p },
            Some(Marker::Waypoint(g)) => LayoutView {
                fences,
                waypoints: p.waypoints.push(WaypointSpot { pos, group: g }),
                ..p
            },
            Some(Marker::Pylon) => LayoutView { fences, pylons: p.pylons.push(pos), ..p },
            Some(Marker::Player) => LayoutView { fences, players: p.players.push(pos), ..p },
            None => LayoutView { fences, ..p },
        }
    }
}

/// Number of cells of the map.
pub open spec fn cell_count(map: &WorldTiles) -> int {
    map.map_size.0 as int * map.map_size.1 as int
}

/// World position of cell `(x, y)`.
fn cell_position(map: &WorldTiles, x: u32, y: u32) -> (r: Vec2)
    requires
        map_ok(map),
        x < map.map_size.0,
        y < map.map_size.1,
    ensures
        r == cell_pos(map, x as int, y as int),
        half_range(r),
{
    let (mw, mh) = (map.map_size.0 as i64, map.map_size.1 as i64);
    let (tw, th) = (map.tile_size.0 as i64, map.tile_size.1 as i64);
    assert(0 <= x * tw <= 16384 * 16384 && 0 <= tw * mw <= 16384 * 16384) by (nonlinear_arith)
        requires
            0 <= x < mw <= 16384,
            0 <= tw <= 16384,
    ;
    assert(0 <= y * th <= 16384 * 16384 && 0 <= th * mh <= 16384 * 16384) by (nonlinear_arith)
        requires
            0 <= y < mh <= 16384,
            0 <= th <= 16384,
    ;
    Vec2 { x: x as i64 * tw - tw * mw / 2, y: th * mh / 2 - y as i64 * th }
}

/// Scans the map cell by cell, row by row, and lists what it asks to be
/// spawned; see `layout_spec`.
pub fn layout_world(map: &WorldTiles, objects: &WorldTiles, tileset: &Vec<TileProps>) -> (r:
    WorldLayout)
    requires
        map_ok(map),
    ensures
        r@ == layout_spec(map, objects, tileset@, cell_count(map)),
        spots_ok(r@.waypoints),
{
    let mut out = WorldLayout {
        fences: Vec::new(),
        goblins: Vec::new(),
        waypoints: Vec::new(),
        pylons: Vec::new(),
        players: Vec::new(),
    };
    let w = map.map_size.0;
    let h = map.map_size.1;
    assert(0 <= w as int * h as int <= 16384 * 16384) by (nonlinear_arith)
        requires
            w <= 16384,
            h <= 16384,
    ;
    let count: usize = (w as usize) * (h as usize);
    let mut n: usize = 0;
    while n < count
        invariant
            map_ok(map),
            w == map.map_size.0,
            h == map.map_size.1,
            count as int == cell_count(map),
            0 <= n <= count,
            out@ == layout_spec(map, objects, tileset@, n as int),
            spots_ok(out@.waypoints),
        decreases count - n,
    {
        let x = (n % (w as usize)) as u32;
        let y = (n / (w as usize)) as u32;
        assert((n as int) / (w as int) < h as int) by (nonlinear_arith)
            requires
                (n as int) < w as int * h as int,
                w as int > 0,
        ;
        let pos = cell_position(map, x, y);
        let ghost p = out@;
        if let Some(t) = map.get_id(x as usize, y as usize) {
            if is_fence(tileset, t) {
                out.fences.push(pos);
            }
        }
        if let Some(o) = objects.get_id(x as usize, y as usize) {
            let kind = tile_type(tileset, o);
            match marker_of(&kind) {
                Some(Marker::Goblin) => out.goblins.push(pos),
                Some(Marker::Waypoint(g)) => out.waypoints.push(WaypointSpot { pos, group: g }),
                Some(Marker::Pylon) => out.pylons.push(pos),
                Some(Marker::Player) => out.players.push(pos),
                None => {},
            }
        }
        assert(out@ =~= layout_spec(map, objects, tileset@, n + 1));
        n = n + 1;
    }
    out
}

/// The waypoint, if any, that a spawner at each position starts from: the
/// closest of all.
pub open spec fn spawner_link_spec(ws: Seq<WaypointSpot>, pos: Vec2) -> Option<usize> {
    let c = closest_spec(pos.x as int, pos.y as int, ws, None, ws.len() as int);
    if c.1 < i64::MAX { Some(c.0 as usize) } else { None }
}

/// The closest waypoint of each goblin spawner.
pub fn spawner_waypoints(spawners: &Vec<Vec2>, waypoints: &Vec<WaypointSpot>) -> (r: Vec<Option<usize>>)
    requires
        spots_ok(waypoints@),
        forall|i: int| 0 <= i < spawners@.len() ==> half_range(#[trigger] spawners@[i]),
    ensures
        r@.len() == spawners@.len(),
        forall|i: int|
            0 <= i < spawners@.len() ==> #[trigger] r@[i] == spawner_link_spec(waypoints@, spawners@[i]),
{
    let mut r: Vec<Option<usize>> = Vec::new();
    let mut i: usize = 0;
    while i < spawners.len()
        invariant
            0 <= i <= spawners@.len(),
            spots_ok(waypoints@),
            forall|j: int| 0 <= j < spawners@.len() ==> half_range(#[trigger] spawners@[j]),
            r@.len() == i,
            forall|j: int| 0 <= j < i ==> #[trigger] r@[j] == spawner_link_spec(waypoints@, spawners@[j]),
        decreases spawners@.len() - i,
    {
        let p = spawners[i];
        assert(half_range(spawners@[i as int]));
        let (best, distance) = closest_waypoint(p.x, p.y, waypoints, None);
        if distance < i64::MAX {
            r.push(Some(best));
        } else {
            r.push(None);
        }
        i = i + 1;
    }
    r
}

} // verus!

verus! {

/// What the map asks to be built: the layout, the next waypoint of each
/// waypoint, the waypoint each goblin spawner starts from, and where the
/// pylon stands (the first pylon marker).
pub struct WorldPlan {
    pub layout: WorldLayout,
    pub waypoint_links: Vec<Option<usize>>,
    pub spawner_waypoints: Vec<Option<usize>>,
    pub pylon: Option<Vec2>,
}

/// Scans the map and plans the world built from it.
pub fn initialize_tile_world(map: &WorldTiles, objects: &WorldTiles, tileset: &Vec<TileProps>) -> (r:
    WorldPlan)
    requires
        map_ok(map),
    ensures
        r.layout@ == layout_spec(map, objects, tileset@, cell_count(map)),
        r.waypoint_links@.len() == r.layout@.waypoints.len(),
        forall|i: int|
            0 <= i < r.layout@.waypoints.len() ==> #[trigger] r.waypoint_links@[i] == link_spec(
                r.layout@.waypoints,
                i,
            ),
        r.spawner_waypoints@.len() == r.layout@.goblins.len(),
        forall|i: int|
            0 <= i < r.layout@.goblins.len() ==> #[trigger] r.spawner_waypoints@[i]
                == spawner_link_spec(r.layout@.waypoints, r.layout@.goblins[i]),
        r.pylon == (if r.layout@.pylons.len() > 0 {
            Some(r.layout@.pylons[0])
        } else {
            None
        }),
{
    let layout = layout_world(map, objects, tileset);
    proof {
        lemma_layout_positions(map, objects, tileset@, cell_count(map));
        assert(layout.goblins@ == layout_spec(map, objects, tileset@, cell_count(map)).goblins);
    }
    let waypoint_links = follow_waypoints(&layout.waypoints);
    let spawner_waypoints = spawner_waypoints(&layout.goblins, &layout.waypoints);
    let pylon = if layout.pylons.len() > 0 {
        Some(layout.pylons[0])
    } else {
        None
    };
    WorldPlan { layout, waypoint_links, spawner_waypoints, pylon }
}

/// Every goblin marker of a layout lies within half the supported range.
proof fn lemma_layout_positions(map: &WorldTiles, objects: &WorldTiles, tileset: Seq<TileProps>, n: int)
    requires
        map_ok(map),
        n <= cell_count(map),
    ensures
        forall|i: int|
            0 <= i < layout_spec(map, objects, tileset, n).goblins.len() ==> half_range(
                #[trigger] layout_spec(map, objects, tileset, n).goblins[i],
            ),
    decreases n,
{
    if n > 0 && map.map_size.0 > 0 {
        lemma_layout_positions(map, objects, tileset, n - 1);
        let c = n - 1;
        let w = map.map_size.0 as int;
        let h = map.map_size.1 as int;
        let (x, y) = (c % w, c / w);
        assert(0 <= x < w && 0 <= y < h) by (nonlinear_arith)
            requires
                0 <= c < w * h,
                w > 0,
                x == c % w,
                y == c / w,
        ;
        lemma_cell_pos_range(map, x, y);
        let p = layout_spec(map, objects, tileset, n - 1);
        let q = layout_spec(map, objects, tileset, n);
        assert forall|i: int| 0 <= i < q.goblins.len() implies half_range(#[trigger] q.goblins[i]) by {
            if i < p.goblins.len() {
                assert(q.goblins[i] == p.goblins[i]);
            }
        }
    }
}

/// Cell positions lie within half the supported range.
proof fn lemma_cell_pos_range(map: &WorldTiles, x: int, y: int)
    requires
        map_ok(map),
        0 <= x < map.map_size.0,
        0 <= y < map.map_size.1,
    ensures
        half_range(cell_pos(map, x, y)),
{
    let (mw, mh) = (map.map_size.0 as int, map.map_size.1 as int);
    let (tw, th) = (map.tile_size.0 as int, map.tile_size.1 as int);
    assert(0 <= x * tw <= 16384 * 16384 && 0 <= tw * mw <= 16384 * 16384) by (nonlinear_arith)
        requires
            0 <= x < mw <= 16384,
            0 <= tw <= 16384,
    ;
    assert(0 <= y * th <= 16384 * 16384 && 0 <= th * mh <= 16384 * 16384) by (nonlinear_arith)
        requires
            0 <= y < mh <= 16384,
            0 <= th <= 16384,
    ;
}

} // verus!
