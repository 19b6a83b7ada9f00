use goblin_raid::names::{get_named_entity, Named};
use goblin_raid::world::{
    closest_waypoint, follow_waypoints, initialize_tile_world, is_fence, layout_world, marker_of,
    spawner_waypoints, tile_type, Marker, TileProps, WaypointSpot, WorldTiles,
};
use goblin_raid::{Entity, Vec2};

fn props(id: u32, t: &str) -> TileProps {
    TileProps { id, tile_type: Some(t.to_string()) }
}

fn tileset() -> Vec<TileProps> {
    vec![
        props(0, "f"),
        props(1, "Goblin"),
        props(2, "Waypoint1"),
        props(3, "Waypoint2"),
        props(4, "Pylon"),
        props(5, "Player"),
        TileProps { id: 6, tile_type: None },
    ]
}

fn tiles(rows: Vec<Vec<u32>>, w: u32, h: u32) -> WorldTiles {
    WorldTiles { layer0: rows, map_size: (w, h), tile_size: (16, 16) }
}

fn spot(x: i64, y: i64, group: usize) -> WaypointSpot {
    WaypointSpot { pos: Vec2 { x, y }, group }
}

#[test]
fn tile_ids_and_types() {
    let map = tiles(vec![vec![0, 1, 7]], 3, 1);
    assert_eq!(map.get_id(0, 0), None);
    assert_eq!(map.get_id(1, 0), Some(0));
    assert_eq!(map.get_id(2, 0), Some(6));
    assert_eq!(map.get_id(3, 0), None);
    assert_eq!(map.get_id(0, 1), None);
    let ts = tileset();
    assert_eq!(tile_type(&ts, 1), "Goblin");
    assert_eq!(tile_type(&ts, 6), "");
    assert_eq!(tile_type(&ts, 99), "");
    assert!(is_fence(&ts, 0));
    assert!(!is_fence(&ts, 1));
}

#[test]
fn markers_by_name() {
    assert_eq!(marker_of(&"Goblin".to_string()), Some(Marker::Goblin));
    assert_eq!(marker_of(&"Waypoint4".to_string()), Some(Marker::Waypoint(4)));
    assert_eq!(marker_of(&"Pylon".to_string()), Some(Marker::Pylon));
    assert_eq!(marker_of(&"Player".to_string()), Some(Marker::Player));
    assert_eq!(marker_of(&"goblin".to_string()), None);
    assert_eq!(marker_of(&"f".to_string()), None);
}

#[test]
fn closest_waypoint_by_squared_distance() {
    let ws = vec![spot(10, 0, 1), spot(3, 4, 2), spot(-3, -4, 1)];
    assert_eq!(closest_waypoint(0, 0, &ws, None), (1, 25));
    // Only group 1 is eligible when asking for the group below 2.
    assert_eq!(closest_waypoint(0, 0, &ws, Some(2)), (2, 25));
    // Nothing of group 4 exists.
    assert_eq!(closest_waypoint(0, 0, &ws, Some(5)), (0, i64::MAX));
    assert_eq!(closest_waypoint(0, 0, &Vec::new(), None), (0, i64::MAX));
}

#[test]
fn waypoints_link_one_group_down() {
    let ws = vec![spot(0, 0, 1), spot(100, 0, 1), spot(90, 10, 2), spot(0, 50, 3), spot(500, 500, 5)];
    assert_eq!(follow_waypoints(&ws), vec![None, None, Some(1), Some(2), None]);
}

#[test]
fn spawners_start_at_closest_waypoint() {
    let ws = vec![spot(0, 0, 1), spot(100, 0, 2)];
    let sp = vec![Vec2 { x: 80, y: 5 }, Vec2 { x: -10, y: 0 }];
    assert_eq!(spawner_waypoints(&sp, &ws), vec![Some(1), Some(0)]);
    assert_eq!(spawner_waypoints(&sp, &Vec::new()), vec![None, None]);
}

#[test]
fn layout_of_small_map() {
    // Two rows of three cells, tiles of 16 units: x runs -24, -8, 8 and
    // y runs 16, 0.
    let terrain = tiles(vec![vec![1, 0, 0], vec![0, 0, 1]], 3, 2);
    let objects = tiles(vec![vec![0, 2, 3], vec![4, 5, 6]], 3, 2);
    let layout = layout_world(&terrain, &objects, &tileset());
    assert_eq!(layout.fences, vec![Vec2 { x: -24, y: 16 }, Vec2 { x: 8, y: 0 }]);
    assert_eq!(layout.goblins, vec![Vec2 { x: -8, y: 16 }]);
    assert_eq!(layout.waypoints, vec![spot(8, 16, 1), spot(-24, 0, 2)]);
    assert_eq!(layout.pylons, vec![Vec2 { x: -8, y: 0 }]);
    assert_eq!(layout.players, vec![Vec2 { x: 8, y: 0 }]);
}

#[test]
fn world_plan_links_everything() {
    let terrain = tiles(vec![vec![1, 0, 0], vec![0, 0, 1]], 3, 2);
    let objects = tiles(vec![vec![0, 2, 3], vec![4, 5, 6]], 3, 2);
    let plan = initialize_tile_world(&terrain, &objects, &tileset());
    assert_eq!(plan.waypoint_links, vec![None, Some(0)]);
    assert_eq!(plan.spawner_waypoints, vec![Some(0)]);
    assert_eq!(plan.pylon, Some(Vec2 { x: -8, y: 0 }));
}

#[test]
fn empty_map_plans_nothing() {
    let terrain = tiles(Vec::new(), 0, 0);
    let plan = initialize_tile_world(&terrain, &terrain, &tileset());
    assert!(plan.layout.fences.is_empty());
    assert_eq!(plan.pylon, None);
}

#[test]
fn named_entity_lookup_ignores_ascii_case() {
    let named = vec![
        Named { entity: Entity { id: 1, generation: 0 }, name: "Player".to_string() },
        Named { entity: Entity { id: 2, generation: 0 }, name: "PYLON".to_string() },
        Named { entity: Entity { id: 3, generation: 0 }, name: "pylon".to_string() },
    ];
    assert_eq!(get_named_entity(&named, "pylon"), Some(Entity { id: 2, generation: 0 }));
    assert_eq!(get_named_entity(&named, "player"), Some(Entity { id: 1, generation: 0 }));
    assert_eq!(get_named_entity(&named, "goblin"), None);
    assert_eq!(get_named_entity(&named, "pylo"), None);
}
