use onyx_server::geometry::{Point, Velocity, SPRITE_SIZE, SUBPIXELS_PER_PIXEL, TILE_SIZE};
use onyx_server::map::{Area, AreaData, GameMap, MapId, MapLayer, Tile, TileUv};
use onyx_server::protocol::{
    ChatMessage, ClientId, ClientMessage, Direction, Message, NetworkSignal, Recipients,
    ServerMessage,
};
use onyx_server::server::{load_maps, GameServer, MapLoadError, WarpParams};
use std::collections::VecDeque;

const PX: i64 = SUBPIXELS_PER_PIXEL;

fn server() -> GameServer {
    GameServer::new(Vec::new(), 0).unwrap()
}

fn join(s: &mut GameServer, id: u64, name: &str) {
    s.handle_message(ClientId(id), ClientMessage::Hello(name.to_string(), 1));
}

fn reaches(to: &Recipients, k: ClientId) -> bool {
    match to {
        Recipients::Only(c) => *c == k,
        Recipients::List(v) => v.contains(&k),
        Recipients::Exclude(c) => *c != k,
        Recipients::Everybody => true,
    }
}

fn count(msgs: &[Message], k: ClientId, f: impl Fn(&ServerMessage) -> bool) -> usize {
    msgs.iter().filter(|m| reaches(&m.to, k) && f(&m.message)).count()
}

fn server_text(m: &ServerMessage) -> Option<String> {
    match m {
        ServerMessage::Message(ChatMessage::Server(t)) => Some(t.clone()),
        _ => None,
    }
}

#[test]
fn startup_without_stored_maps_makes_start_map() {
    let maps = load_maps(Vec::new()).unwrap();
    assert_eq!(maps.len(), 1);
    let m = &maps[0];
    assert_eq!(m.id, MapId::start());
    assert_eq!(m.id, MapId(0));
    assert_eq!((m.width, m.height), (20, 15));
    assert_eq!(m.settings.revision, 0);
    assert!(m.settings.name.is_empty());
    assert!(m.settings.tileset.is_empty());
    assert!(m.settings.music.is_none());
    assert!(m.areas.is_empty());
    assert!(m.is_valid());
}

#[test]
fn startup_keeps_stored_start_map() {
    let mut stored = GameMap::new(MapId(0), 5, 6);
    stored.settings.revision = 9;
    let other = GameMap::new(MapId(3), 2, 2);
    let maps = load_maps(vec![stored, other]).unwrap();
    assert_eq!(maps.len(), 2);
    assert_eq!((maps[0].width, maps[0].height, maps[0].settings.revision), (5, 6, 9));
    assert_eq!(maps[1].id, MapId(3));
}

#[test]
fn startup_adds_start_map_after_others() {
    let maps = load_maps(vec![GameMap::new(MapId(4), 2, 2)]).unwrap();
    assert_eq!(maps.len(), 2);
    assert_eq!(maps[1].id, MapId(0));
    assert_eq!((maps[1].width, maps[1].height), (20, 15));
}

#[test]
fn startup_rejects_malformed_map() {
    let mut bad = GameMap::new(MapId(2), 3, 3);
    bad.fringe.pop();
    assert_eq!(load_maps(vec![bad]).unwrap_err(), MapLoadError::Malformed(MapId(2)));
    let mut bad = GameMap::new(MapId(2), 3, 3);
    bad.ground.push(Tile::Empty);
    assert!(GameServer::new(vec![bad], 0).is_err());
}

#[test]
fn startup_rejects_duplicate_ids() {
    let a = GameMap::new(MapId(7), 1, 1);
    let b = GameMap::new(MapId(7), 2, 2);
    assert_eq!(load_maps(vec![a, b]).unwrap_err(), MapLoadError::Duplicate(MapId(7)));
}

#[test]
fn handshake_spawns_and_greets() {
    let mut s = server();
    join(&mut s, 1, "ann");
    let out = s.send_all();
    assert_eq!(s.players.len(), 1);
    let p = &s.players[0].1;
    assert_eq!(p.name, "ann");
    assert_eq!(p.sprite, 1);
    assert_eq!(p.position, Point { x: 10 * TILE_SIZE * PX, y: 7 * TILE_SIZE * PX });
    assert_eq!(p.direction, Direction::South);
    assert_eq!(p.velocity, None);
    assert_eq!(p.map, MapId(0));
    assert!(matches!(out[0].message, ServerMessage::Hello(ClientId(1))));
    assert!(matches!(out[0].to, Recipients::Only(ClientId(1))));
    assert!(matches!(out[1].message, ServerMessage::ChangeMap(MapId(0), 0)));
    assert!(matches!(out[2].message, ServerMessage::PlayerJoined(ClientId(1), _)));
    assert!(matches!(out[3].message, ServerMessage::PlayerMove { client_id: ClientId(1), .. }));
    assert_eq!(server_text(&out[4].message).unwrap(), "Welcome to Game™!");
    assert!(matches!(out[4].to, Recipients::Only(ClientId(1))));
    assert_eq!(server_text(&out[5].message).unwrap(), "ann has joined the game.");
    assert!(matches!(out[5].to, Recipients::Exclude(ClientId(1))));
    assert_eq!(out.len(), 6);
    assert!(s.send_all().is_empty());
}

#[test]
fn second_player_learns_about_first() {
    let mut s = server();
    join(&mut s, 1, "ann");
    s.send_all();
    join(&mut s, 2, "bob");
    let out = s.send_all();
    assert_eq!(count(&out, ClientId(2), |m| matches!(m, ServerMessage::PlayerJoined(ClientId(1), _))), 1);
    assert_eq!(count(&out, ClientId(2), |m| matches!(m, ServerMessage::PlayerJoined(ClientId(2), _))), 1);
    assert_eq!(count(&out, ClientId(1), |m| matches!(m, ServerMessage::PlayerJoined(ClientId(2), _))), 1);
    assert_eq!(count(&out, ClientId(1), |m| matches!(m, ServerMessage::PlayerLeft(_))), 0);
}

#[test]
fn requests_before_handshake_are_dropped() {
    let mut s = server();
    s.handle_message(ClientId(5), ClientMessage::Message("hi".to_string()));
    s.handle_message(ClientId(5), ClientMessage::RequestMap);
    s.handle_message(ClientId(5), ClientMessage::MapEditor);
    s.handle_message(ClientId(5), ClientMessage::Warp(MapId(3), None));
    s.handle_message(
        ClientId(5),
        ClientMessage::Move { position: Point { x: 0, y: 0 }, direction: Direction::North, velocity: None },
    );
    assert!(s.send_all().is_empty());
    assert!(s.players.is_empty());
    assert_eq!(s.maps.len(), 1);
}

#[test]
fn disconnect_without_handshake_sends_nothing() {
    let mut s = server();
    join(&mut s, 1, "ann");
    s.send_all();
    s.handle_signal(NetworkSignal::Connected(ClientId(9)));
    s.handle_signal(NetworkSignal::Disconnected(ClientId(9)));
    assert!(s.send_all().is_empty());
    assert_eq!(s.players.len(), 1);
}

#[test]
fn disconnect_tells_map_and_others() {
    let mut s = server();
    join(&mut s, 1, "ann");
    join(&mut s, 2, "bob");
    s.send_all();
    s.handle_signal(NetworkSignal::Disconnected(ClientId(1)));
    let out = s.send_all();
    assert_eq!(out.len(), 2);
    match (&out[0].to, &out[0].message) {
        (Recipients::List(v), ServerMessage::PlayerLeft(ClientId(1))) => assert_eq!(v, &vec![ClientId(2)]),
        _ => panic!("expected a PlayerLeft"),
    }
    assert!(matches!(out[1].to, Recipients::Exclude(ClientId(1))));
    assert_eq!(server_text(&out[1].message).unwrap(), "ann has left the game.");
    assert_eq!(s.players.len(), 1);
}

#[test]
fn chat_goes_to_everybody_with_name() {
    let mut s = server();
    join(&mut s, 1, "ann");
    s.send_all();
    s.handle_message(ClientId(1), ClientMessage::Message("hello there".to_string()));
    let out = s.send_all();
    assert_eq!(out.len(), 1);
    assert!(matches!(out[0].to, Recipients::Everybody));
    match &out[0].message {
        ServerMessage::Message(ChatMessage::Say(t)) => assert_eq!(t, "ann: hello there"),
        _ => panic!("expected a chat line"),
    }
}

#[test]
fn move_updates_record_and_tells_others_on_map() {
    let mut s = server();
    join(&mut s, 1, "ann");
    join(&mut s, 2, "bob");
    join(&mut s, 3, "cid");
    s.handle_message(ClientId(3), ClientMessage::Warp(MapId(8), None));
    s.send_all();
    let to = Point { x: 100, y: 200 };
    let v = Some(Velocity { x: 5, y: -5 });
    s.handle_message(ClientId(1), ClientMessage::Move { position: to, direction: Direction::East, velocity: v });
    let out = s.send_all();
    assert_eq!(out.len(), 1);
    match (&out[0].to, &out[0].message) {
        (Recipients::List(l), ServerMessage::PlayerMove { client_id, position, direction, velocity }) => {
            assert_eq!(l, &vec![ClientId(2)]);
            assert_eq!(*client_id, ClientId(1));
            assert_eq!(*position, to);
            assert_eq!(*direction, Direction::East);
            assert_eq!(*velocity, v);
        }
        _ => panic!("expected a PlayerMove"),
    }
    let p = &s.players[0].1;
    assert_eq!((p.position, p.direction, p.velocity), (to, Direction::East, v));
}

#[test]
fn warp_notifies_each_observer_once() {
    let mut s = server();
    join(&mut s, 1, "ann");
    join(&mut s, 2, "bob");
    join(&mut s, 3, "cid");
    s.handle_message(ClientId(3), ClientMessage::Warp(MapId(6), None));
    s.send_all();
    // ann moves from the start map to map 6, where cid is.
    s.handle_message(ClientId(1), ClientMessage::Warp(MapId(6), Some(Point { x: 48_000, y: 48_000 })));
    let out = s.send_all();
    let left = |k: u64| count(&out, ClientId(k), |m| matches!(m, ServerMessage::PlayerLeft(ClientId(1))));
    let joined = |k: u64| count(&out, ClientId(k), |m| matches!(m, ServerMessage::PlayerJoined(ClientId(1), _)));
    let moved = |k: u64| count(&out, ClientId(k), |m| matches!(m, ServerMessage::PlayerMove { client_id: ClientId(1), .. }));
    assert_eq!(left(2), 1);
    assert_eq!(left(1), 0);
    assert_eq!(left(3), 0);
    assert_eq!((joined(1), joined(3), joined(2)), (1, 1, 0));
    assert_eq!((moved(1), moved(3), moved(2)), (1, 1, 0));
    assert_eq!(count(&out, ClientId(1), |m| matches!(m, ServerMessage::ChangeMap(MapId(6), 0))), 1);
    assert_eq!(count(&out, ClientId(1), |m| matches!(m, ServerMessage::PlayerJoined(ClientId(3), _))), 1);
    assert_eq!(count(&out, ClientId(1), |m| matches!(m, ServerMessage::PlayerJoined(ClientId(2), _))), 0);
    assert!(matches!(out[0].message, ServerMessage::PlayerLeft(ClientId(1))));
    let p = &s.players[0].1;
    assert_eq!(p.map, MapId(6));
    assert_eq!(p.position, Point { x: 48_000, y: 48_000 });
}

#[test]
fn warp_to_unknown_map_makes_it() {
    let mut s = server();
    join(&mut s, 1, "ann");
    s.handle_message(ClientId(1), ClientMessage::Warp(MapId(42), None));
    let m = s.map(MapId(42)).unwrap();
    assert_eq!((m.width, m.height, m.settings.revision), (20, 15, 0));
    assert_eq!(s.maps.len(), 2);
}

#[test]
fn warp_player_unknown_connection_does_nothing() {
    let mut s = server();
    s.warp_player(
        ClientId(4),
        MapId(1),
        WarpParams { initial: false, position: None, direction: None, velocity: None },
    );
    assert!(s.send_all().is_empty());
    assert_eq!(s.maps.len(), 1);
}

#[test]
fn request_map_replies_to_requester_only() {
    let mut s = server();
    join(&mut s, 1, "ann");
    s.send_all();
    s.handle_message(ClientId(1), ClientMessage::RequestMap);
    let out = s.send_all();
    assert_eq!(out.len(), 1);
    assert!(matches!(out[0].to, Recipients::Only(ClientId(1))));
    match &out[0].message {
        ServerMessage::MapData(m) => {
            assert_eq!((m.id, m.width, m.height), (MapId(0), 20, 15));
            assert_eq!(m.tile_count(MapLayer::Ground), 300);
        }
        _ => panic!("expected map data"),
    }
}

#[test]
fn save_map_replaces_and_broadcasts() {
    let mut s = server();
    join(&mut s, 1, "ann");
    join(&mut s, 2, "bob");
    s.send_all();
    let mut edited = GameMap::new(MapId(99), 4, 3);
    edited.settings.revision = 2;
    edited.set_tile(MapLayer::Mask, 1, 1, Tile::Basic(TileUv { x: 3, y: 4 }));
    s.handle_message(ClientId(1), ClientMessage::SaveMap(edited));
    let out = s.send_all();
    assert_eq!(out.len(), 1);
    match (&out[0].to, &out[0].message) {
        (Recipients::List(l), ServerMessage::MapData(m)) => {
            assert_eq!(l, &vec![ClientId(1), ClientId(2)]);
            assert_eq!(m.id, MapId(0));
            assert_eq!(m.settings.revision, 2);
        }
        _ => panic!("expected map data"),
    }
    let stored = s.map(MapId(0)).unwrap();
    assert_eq!((stored.width, stored.height), (4, 3));
    assert_eq!(stored.tile(MapLayer::Mask, 1, 1), Some(Tile::Basic(TileUv { x: 3, y: 4 })));
    assert_eq!(s.take_pending_saves(), vec![MapId(0)]);
    assert!(s.take_pending_saves().is_empty());
}

#[test]
fn save_of_malformed_map_is_dropped() {
    let mut s = server();
    join(&mut s, 1, "ann");
    s.send_all();
    let mut bad = GameMap::new(MapId(0), 4, 3);
    bad.mask2.clear();
    s.handle_message(ClientId(1), ClientMessage::SaveMap(bad));
    assert!(s.send_all().is_empty());
    assert!(s.take_pending_saves().is_empty());
    assert_eq!(s.map(MapId(0)).unwrap().width, 20);
}

#[test]
fn map_editor_gets_catalog() {
    let mut named = GameMap::new(MapId(0), 7, 8);
    named.settings.name = "town".to_string();
    let mut other = GameMap::new(MapId(2), 1, 1);
    other.settings.name = "cave".to_string();
    let mut s = GameServer::new(vec![named, other], 0).unwrap();
    join(&mut s, 1, "ann");
    s.send_all();
    s.handle_message(ClientId(1), ClientMessage::MapEditor);
    let out = s.send_all();
    assert_eq!(out.len(), 1);
    match &out[0].message {
        ServerMessage::MapEditor { maps, id, width, height, settings } => {
            assert_eq!(maps, &vec![(MapId(0), "town".to_string()), (MapId(2), "cave".to_string())]);
            assert_eq!((*id, *width, *height), (MapId(0), 7, 8));
            assert_eq!(settings.name, "town");
        }
        _ => panic!("expected the editor snapshot"),
    }
}

#[test]
fn tick_moves_by_velocity_times_elapsed() {
    let mut s = server();
    join(&mut s, 1, "ann");
    join(&mut s, 2, "bob");
    let start = s.players[0].1.position;
    s.handle_message(
        ClientId(1),
        ClientMessage::Move { position: start, direction: Direction::East, velocity: Some(Velocity { x: 100 * PX, y: 0 }) },
    );
    s.send_all();
    s.begin_tick(100_000);
    assert_eq!(s.dt, 100_000);
    s.update_players();
    let p = &s.players[0].1;
    assert_eq!(p.position, Point { x: start.x + 10 * PX, y: start.y });
    let out = s.send_all();
    assert_eq!(out.len(), 1);
    match (&out[0].to, &out[0].message) {
        (Recipients::List(l), ServerMessage::PlayerMove { client_id, position, .. }) => {
            assert_eq!(l, &vec![ClientId(1), ClientId(2)]);
            assert_eq!(*client_id, ClientId(1));
            assert_eq!(position.x - start.x, 10 * PX);
        }
        _ => panic!("expected a PlayerMove"),
    }
}

#[test]
fn negative_velocity_rounds_toward_zero() {
    let mut s = server();
    join(&mut s, 1, "ann");
    let start = s.players[0].1.position;
    s.handle_message(
        ClientId(1),
        ClientMessage::Move { position: start, direction: Direction::West, velocity: Some(Velocity { x: -3, y: 7 }) },
    );
    s.begin_tick(500_000);
    s.update_players();
    assert_eq!(s.players[0].1.position, Point { x: start.x - 1, y: start.y + 3 });
}

#[test]
fn clock_going_back_counts_as_no_time() {
    let mut s = server();
    s.begin_tick(500);
    s.begin_tick(200);
    assert_eq!((s.time, s.dt), (500, 0));
}

fn blocked_server() -> GameServer {
    let mut start = GameMap::new(MapId(0), 20, 15);
    // a wall just right of the spawn footprint
    start.areas.push(Area {
        x: 11 * TILE_SIZE * PX,
        y: 7 * TILE_SIZE * PX,
        width: TILE_SIZE * PX,
        height: TILE_SIZE * PX,
        data: AreaData::Blocked,
    });
    GameServer::new(vec![start], 0).unwrap()
}

#[test]
fn blocking_area_stops_movement() {
    let mut s = blocked_server();
    join(&mut s, 1, "ann");
    let start = s.players[0].1.position;
    s.handle_message(
        ClientId(1),
        ClientMessage::Move { position: start, direction: Direction::East, velocity: Some(Velocity { x: 100 * PX, y: 0 }) },
    );
    s.send_all();
    let mut now: u64 = 0;
    for _ in 0..5 {
        now += 100_000;
        s.begin_tick(now);
        s.update_players();
        assert_eq!(s.players[0].1.position, start);
    }
    assert!(s.send_all().is_empty());
}

#[test]
fn map_edge_stops_movement() {
    let mut s = server();
    join(&mut s, 1, "ann");
    let edge = Point { x: 20 * TILE_SIZE * PX - SPRITE_SIZE * PX, y: 0 };
    s.handle_message(
        ClientId(1),
        ClientMessage::Move { position: edge, direction: Direction::East, velocity: Some(Velocity { x: 1_000, y: 0 }) },
    );
    s.begin_tick(1_000_000);
    s.update_players();
    assert_eq!(s.players[0].1.position, edge);
    // half the sprite may stick out above the map
    let top = Point { x: 0, y: -(SPRITE_SIZE * PX / 2) };
    s.handle_message(
        ClientId(1),
        ClientMessage::Move { position: top, direction: Direction::North, velocity: Some(Velocity { x: 0, y: -1_000 }) },
    );
    s.begin_tick(2_000_000);
    s.update_players();
    assert_eq!(s.players[0].1.position, top);
}

fn sign_server() -> GameServer {
    let mut start = GameMap::new(MapId(0), 20, 15);
    start.areas.push(Area { x: 0, y: 0, width: 20 * TILE_SIZE * PX, height: 15 * TILE_SIZE * PX, data: AreaData::Log("a sign".to_string()) });
    start.areas.push(Area { x: 0, y: 0, width: 20 * TILE_SIZE * PX, height: 15 * TILE_SIZE * PX, data: AreaData::Log("another".to_string()) });
    GameServer::new(vec![start], 0).unwrap()
}

fn signs(out: &[Message]) -> Vec<String> {
    out.iter().filter_map(|m| server_text(&m.message)).collect()
}

#[test]
fn proximity_message_respects_cooldown() {
    let mut s = sign_server();
    join(&mut s, 1, "ann");
    s.send_all();
    s.begin_tick(1_500_000);
    s.update_players();
    let out = s.send_all();
    assert_eq!(signs(&out), vec!["a sign".to_string()]);
    assert!(matches!(out[0].to, Recipients::Only(ClientId(1))));
    assert_eq!(s.players[0].1.last_message, 1_500_000);
    s.begin_tick(2_000_000);
    s.update_players();
    assert!(signs(&s.send_all()).is_empty());
    s.begin_tick(2_500_000);
    s.update_players();
    assert!(signs(&s.send_all()).is_empty());
    s.begin_tick(2_600_000);
    s.update_players();
    assert_eq!(signs(&s.send_all()), vec!["a sign".to_string()]);
}

#[test]
fn no_proximity_message_within_first_second() {
    let mut s = sign_server();
    join(&mut s, 1, "ann");
    s.send_all();
    s.begin_tick(1_000_000);
    s.update_players();
    assert!(signs(&s.send_all()).is_empty());
}

#[test]
fn tick_dispatches_in_order_then_simulates() {
    let mut s = server();
    let mut signals = VecDeque::new();
    signals.push_back(NetworkSignal::Connected(ClientId(1)));
    signals.push_back(NetworkSignal::Message(ClientId(1), ClientMessage::Hello("ann".to_string(), 2)));
    signals.push_back(NetworkSignal::Message(
        ClientId(1),
        ClientMessage::Move {
            position: Point { x: 10 * TILE_SIZE * PX, y: 7 * TILE_SIZE * PX },
            direction: Direction::East,
            velocity: Some(Velocity { x: 100 * PX, y: 0 }),
        },
    ));
    signals.push_back(NetworkSignal::Message(ClientId(1), ClientMessage::Message("hi".to_string())));
    let out = s.tick(100_000, signals);
    assert_eq!((s.time, s.dt), (100_000, 100_000));
    assert!(matches!(out[0].message, ServerMessage::Hello(ClientId(1))));
    // the handshake's six events, the move broadcast to nobody else, the
    // chat line, then the tick's own move
    assert_eq!(out.len(), 9);
    assert!(matches!(&out[6].to, Recipients::List(l) if l.is_empty()));
    assert!(matches!(out[7].message, ServerMessage::Message(ChatMessage::Say(_))));
    match (&out[8].to, &out[8].message) {
        (Recipients::List(l), ServerMessage::PlayerMove { position, .. }) => {
            assert_eq!(l, &vec![ClientId(1)]);
            assert_eq!(position.x, 10 * TILE_SIZE * PX + 10 * PX);
        }
        _ => panic!("expected the tick's move"),
    }
    assert!(s.send_all().is_empty());
    let out = s.tick(200_000, VecDeque::new());
    assert_eq!(out.len(), 1);
    assert_eq!(s.players[0].1.position.x, 10 * TILE_SIZE * PX + 20 * PX);
}

#[test]
fn tick_handles_disconnect_before_simulation() {
    let mut s = server();
    join(&mut s, 1, "ann");
    join(&mut s, 2, "bob");
    s.send_all();
    let mut signals = VecDeque::new();
    signals.push_back(NetworkSignal::Disconnected(ClientId(2)));
    let out = s.tick(50_000, signals);
    assert_eq!(out.len(), 2);
    assert!(matches!(out[0].message, ServerMessage::PlayerLeft(ClientId(2))));
    assert_eq!(s.players.len(), 1);
}
