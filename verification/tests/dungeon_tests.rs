use bracket_random::prelude::RandomNumberGenerator;
use roguelike::components::{Layer, Position};
use roguelike::dungeon::{
    apply_horizontal_tunnel, apply_room, apply_vertical_tunnel, random_cell_in, spawn_count,
    tile_bundles, try_spawn, MapInfo, Room, RoomMapBuilder, Spawn, SpawnKind,
};
use roguelike::map_tile::TileType;

fn at(x: i32, y: i32) -> Position {
    Position { x, y }
}

fn floors(map: &MapInfo) -> Vec<usize> {
    (0..map.tiles.len()).filter(|i| map.tiles[*i] == TileType::Floor).collect()
}

#[test]
fn a_new_layout_is_all_wall() {
    let map = MapInfo::new(7, 5);
    assert_eq!(map.width, 7);
    assert_eq!(map.height, 5);
    assert_eq!(map.tiles.len(), 35);
    assert!(map.tiles.iter().all(|t| *t == TileType::Wall));
    assert!(map.rooms.is_empty());
    assert_eq!(map.player_start, None);
    assert!(MapInfo::new(0, 9).tiles.is_empty());
}

#[test]
fn cells_of_a_layout_are_counted_row_by_row() {
    let map = MapInfo::new(7, 5);
    assert_eq!(map.xy_idx(0, 0), Some(0));
    assert_eq!(map.xy_idx(3, 2), Some(17));
    assert_eq!(map.xy_idx(6usize, 4usize), Some(34));
    assert_eq!(map.xy_idx(7, 5), Some(42));
    assert_eq!(map.xy_idx(8, 0), None);
    assert_eq!(map.xy_idx(0, 6), None);
    assert_eq!(map.xy_idx(-1, 2), None);
    assert_eq!(map.xy_idx(2, -1), None);
    assert_eq!(map.cell_index(1, 1), Some(8));
}

#[test]
fn a_horizontal_tunnel_runs_between_both_ends() {
    let mut map = MapInfo::new(7, 5);
    apply_horizontal_tunnel(&mut map, 5, 2, 1);
    assert_eq!(floors(&map), vec![9, 10, 11, 12]);
    apply_horizontal_tunnel(&mut map, 3, 3, 4);
    assert_eq!(floors(&map), vec![9, 10, 11, 12, 31]);
    apply_horizontal_tunnel(&mut map, -3, 1, 0);
    assert_eq!(floors(&map), vec![0, 1, 9, 10, 11, 12, 31]);
    assert_eq!(map.tiles.len(), 35);
}

#[test]
fn a_vertical_tunnel_runs_between_both_ends() {
    let mut map = MapInfo::new(7, 5);
    apply_vertical_tunnel(&mut map, 1, 3, 2);
    assert_eq!(floors(&map), vec![9, 16, 23]);
    apply_vertical_tunnel(&mut map, 4, 9, 6);
    assert_eq!(floors(&map), vec![9, 16, 23, 34]);
    apply_vertical_tunnel(&mut map, 0, 0, -1);
    assert_eq!(floors(&map), vec![9, 16, 23, 34]);
}

#[test]
fn a_room_is_cut_with_grass_where_marked() {
    let mut map = MapInfo::new(7, 5);
    let mut grass = vec![false; 35];
    grass[9] = true;
    grass[17] = true;
    grass[0] = true;
    let room = Room { x1: 1, x2: 4, y1: 1, y2: 3 };
    apply_room(&mut map, &room, &grass);
    for i in 0..35 {
        let expected = match i {
            9 | 17 => TileType::Grass,
            8 | 10 | 15 | 16 => TileType::Floor,
            _ => TileType::Wall,
        };
        assert_eq!(map.tiles[i], expected);
    }
    let mut bare = MapInfo::new(7, 5);
    apply_room(&mut bare, &room, &vec![]);
    assert_eq!(floors(&bare), vec![8, 9, 10, 15, 16, 17]);
}

#[test]
fn proposed_rooms_keep_off_the_edges() {
    let mut builder = RoomMapBuilder::new(58, 39, RandomNumberGenerator::seeded(12));
    assert_eq!(builder.width(), 58);
    assert_eq!(builder.height(), 39);
    let mut widest = 0;
    let mut narrowest = i32::MAX;
    for _ in 0..500 {
        let room = builder.build_random_room();
        let w = room.x2 - room.x1;
        let h = room.y2 - room.y1;
        assert!((4..=13).contains(&w));
        assert!((4..=13).contains(&h));
        assert!(room.x1 >= 1 && room.x2 <= 55);
        assert!(room.y1 >= 1 && room.y2 <= 36);
        widest = widest.max(w);
        narrowest = narrowest.min(w);
    }
    assert_eq!(widest, 13);
    assert_eq!(narrowest, 4);
    assert!(builder.rooms().is_empty());
}

#[test]
fn small_maps_get_the_smallest_rooms() {
    let mut builder = RoomMapBuilder::new(8, 8, RandomNumberGenerator::seeded(5));
    for _ in 0..50 {
        let room = builder.build_random_room();
        assert_eq!(room, Room { x1: 1, x2: 5, y1: 1, y2: 5 });
    }
}

#[test]
fn rooms_that_touch_are_not_placed() {
    let mut builder = RoomMapBuilder::new(30, 30, RandomNumberGenerator::seeded(1));
    let mut map = MapInfo::new(30, 30);
    let grass = vec![false; 900];
    let first = Room { x1: 2, x2: 6, y1: 2, y2: 8 };
    assert!(builder.fits(&first));
    assert!(builder.place_room(&mut map, first, &grass));
    assert_eq!(floors(&map).len(), 24);
    let before = map.tiles.clone();

    for blocked in [
        Room { x1: 6, x2: 10, y1: 2, y2: 8 },
        Room { x1: 4, x2: 9, y1: 4, y2: 9 },
        Room { x1: 3, x2: 5, y1: 3, y2: 5 },
        Room { x1: 0, x2: 2, y1: 8, y2: 12 },
    ] {
        assert!(!builder.fits(&blocked));
        assert!(!builder.place_room(&mut map, blocked, &grass));
        assert_eq!(map.tiles, before);
        assert_eq!(builder.rooms(), &vec![first]);
    }
    assert!(builder.fits(&Room { x1: 7, x2: 11, y1: 2, y2: 8 }));
}

#[test]
fn a_placed_room_is_joined_to_the_one_before() {
    for seed in 0..20 {
        let mut builder = RoomMapBuilder::new(30, 30, RandomNumberGenerator::seeded(seed));
        let mut map = MapInfo::new(30, 30);
        let grass = vec![false; 900];
        let first = Room { x1: 2, x2: 6, y1: 2, y2: 8 };
        let second = Room { x1: 20, x2: 26, y1: 15, y2: 19 };
        assert!(builder.place_room(&mut map, first, &grass));
        assert!(builder.place_room(&mut map, second, &grass));
        assert_eq!(builder.rooms(), &vec![first, second]);

        let mut row_first = MapInfo::new(30, 30);
        apply_room(&mut row_first, &first, &grass);
        apply_room(&mut row_first, &second, &grass);
        apply_horizontal_tunnel(&mut row_first, 4, 23, 5);
        apply_vertical_tunnel(&mut row_first, 5, 17, 23);
        let mut column_first = MapInfo::new(30, 30);
        apply_room(&mut column_first, &first, &grass);
        apply_room(&mut column_first, &second, &grass);
        apply_vertical_tunnel(&mut column_first, 5, 17, 4);
        apply_horizontal_tunnel(&mut column_first, 4, 23, 17);
        assert!(map.tiles == row_first.tiles || map.tiles == column_first.tiles);

        builder.finish(&mut map);
        assert_eq!(map.player_start, Some(at(4, 5)));
        assert_eq!(map.rooms, vec![first, second]);
    }
}

#[test]
fn tunnels_dig_through_grass() {
    let mut builder = RoomMapBuilder::new(30, 30, RandomNumberGenerator::seeded(3));
    let mut map = MapInfo::new(30, 30);
    let grass = vec![true; 900];
    assert!(builder.place_room(&mut map, Room { x1: 2, x2: 6, y1: 2, y2: 8 }, &grass));
    assert!(floors(&map).is_empty());
    assert!(builder.place_room(&mut map, Room { x1: 20, x2: 26, y1: 15, y2: 19 }, &grass));
    assert_eq!(map.tiles[5 * 30 + 4], TileType::Floor);
    assert_eq!(map.tiles[17 * 30 + 23], TileType::Floor);
    assert_eq!(map.tiles[2 * 30 + 2], TileType::Grass);
    assert_eq!(floors(&map).len(), 20 + 13 - 1);
}

#[test]
fn without_rooms_the_player_starts_at_the_origin() {
    let builder = RoomMapBuilder::new(30, 30, RandomNumberGenerator::seeded(3));
    let mut map = MapInfo::new(30, 30);
    builder.finish(&mut map);
    assert_eq!(map.player_start, Some(at(0, 0)));
    assert!(map.rooms.is_empty());
}

#[test]
fn a_room_holds_one_thing_less_than_the_die_shows() {
    assert_eq!(spawn_count(1), 0);
    assert_eq!(spawn_count(2), 1);
    assert_eq!(spawn_count(3), 2);
}

#[test]
fn things_are_put_inside_the_room() {
    let mut rng = RandomNumberGenerator::seeded(8);
    let room = Room { x1: 10, x2: 14, y1: -3, y2: 3 };
    for _ in 0..300 {
        let cell = random_cell_in(&mut rng, &room);
        assert!((11..13).contains(&cell.x));
        assert!((-2..2).contains(&cell.y));
    }
}

#[test]
fn a_cell_takes_one_thing_only() {
    let mut spawned = Vec::new();
    assert!(try_spawn(&mut spawned, at(3, 3), SpawnKind::Monster));
    assert!(!try_spawn(&mut spawned, at(3, 3), SpawnKind::Item));
    assert!(try_spawn(&mut spawned, at(3, 4), SpawnKind::Item));
    assert_eq!(
        spawned,
        vec![
            Spawn { position: at(3, 3), kind: SpawnKind::Monster },
            Spawn { position: at(3, 4), kind: SpawnKind::Item },
        ]
    );
}

#[test]
fn every_cell_of_a_layout_gets_its_tile() {
    let mut map = MapInfo::new(3, 2);
    map.tiles[1] = TileType::Floor;
    map.tiles[5] = TileType::Grass;
    let tiles = tile_bundles(&map);
    assert_eq!(tiles.len(), 6);
    let expected = [
        ('#', 0, 0, "Wall", true),
        ('.', 1, 0, "Floor", false),
        ('#', 2, 0, "Wall", true),
        ('#', 0, 1, "Wall", true),
        ('#', 1, 1, "Wall", true),
        ('"', 2, 1, "Grass", false),
    ];
    for (tile, (glyph, x, y, name, solid)) in tiles.iter().zip(expected) {
        assert_eq!(tile.glyph, glyph);
        assert_eq!(tile.position, at(x, y));
        assert_eq!(tile.name, name);
        assert_eq!(tile.layer, Layer(0));
        assert_eq!(tile.blocker, solid);
        assert_eq!(tile.opaque, solid);
    }
}
