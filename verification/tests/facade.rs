use randomizer_client::context::{
    ClientContext, ClientData, EventKind, Message, SeedData, SessionData, WorldData,
};
use randomizer_client::errors::ClientError;
use randomizer_client::facade::{
    ascii_eq_nocase, build_send_event, forfeit_event, report_params, RandomizerClient,
};
use randomizer_client::protocol::{
    create_connection, create_connection_with_uri, Device, Protocol,
};
use randomizer_client::sni::{build_read_requests, AddressSpace, MappingCache, SNIConnection};
use randomizer_client::supervisor::{
    connection_candidates, reconnect_decision, ReconnectDecision,
};

fn device(uri: &str) -> Device {
    Device {
        name: String::from(uri),
        uri: String::from(uri),
        info: None,
    }
}

fn seed(game_id: &str, game_mode: &str) -> SessionData {
    SessionData {
        seed: Some(SeedData {
            id: 1,
            game_id: String::from(game_id),
            game_mode: String::from(game_mode),
            worlds: vec![WorldData {
                world_id: 1,
                guid: String::from("g"),
            }],
        }),
    }
}

#[test]
fn default_connection_endpoints() {
    let c = create_connection(&Protocol::Sni);
    assert_eq!(c.uri, "http://127.0.0.1:8190");
    let c = create_connection(&Protocol::Usb2Snes);
    assert_eq!(c.uri, "ws://127.0.0.1:23074");
    let c = create_connection_with_uri(&Protocol::Usb2Snes, "ws://localhost:8080");
    assert_eq!(c.uri, "ws://localhost:8080");
    assert_eq!(c.protocol, Protocol::Usb2Snes);
}

#[test]
fn candidate_order_is_sni_then_usb_then_legacy() {
    let cands = connection_candidates();
    assert_eq!(cands.len(), 3);
    assert_eq!(cands[0].protocol, Protocol::Sni);
    assert_eq!(cands[0].uri, "http://127.0.0.1:8190");
    assert_eq!(cands[1].protocol, Protocol::Usb2Snes);
    assert_eq!(cands[1].uri, "ws://127.0.0.1:23074");
    assert_eq!(cands[2].protocol, Protocol::Usb2Snes);
    assert_eq!(cands[2].uri, "ws://localhost:8080");
}

#[test]
fn reconnect_with_two_unknown_devices_is_ambiguous() {
    // Two entries, neither matching the cached device: the supervisor
    // reports an error and fails the tick.
    let devices = vec![device("devA"), device("devB")];
    let cached = String::from("devC");
    assert!(matches!(
        reconnect_decision(&devices, &cached),
        ReconnectDecision::TooMany
    ));
}

#[test]
fn reconnect_with_one_unknown_device_adopts_it() {
    let devices = vec![device("devA")];
    let cached = String::from("devC");
    match reconnect_decision(&devices, &cached) {
        ReconnectDecision::Adopt(uri) => assert_eq!(uri, "devA"),
        other => panic!("unexpected {:?}", other),
    }
}

#[test]
fn reconnect_keeps_a_listed_device() {
    let devices = vec![device("devA"), device("devB")];
    let cached = String::from("devB");
    assert!(matches!(
        reconnect_decision(&devices, &cached),
        ReconnectDecision::KeepCurrent
    ));
}

#[test]
fn reconnect_with_empty_list_fails() {
    let devices = Vec::new();
    let cached = String::from("devA");
    assert!(matches!(
        reconnect_decision(&devices, &cached),
        ReconnectDecision::EmptyList
    ));
}

#[test]
fn mapping_cache_is_insert_only() {
    // Within one session a device's mapping never changes: two lookups of
    // one URI observe the same identifier.
    let mut cache = MappingCache::new();
    let uri = String::from("sd2snes");
    assert_eq!(cache.lookup(&uri), None);
    cache.record(uri.clone(), 3);
    assert_eq!(cache.lookup(&uri), Some(3));
    cache.record(String::from("fxpak"), 4);
    assert_eq!(cache.lookup(&uri), Some(3));
    assert_eq!(cache.lookup(&String::from("fxpak")), Some(4));
}

#[test]
fn sni_connection_starts_with_an_empty_cache() {
    let c = SNIConnection::new("http://127.0.0.1:8190");
    assert_eq!(c.uri, "http://127.0.0.1:8190");
    assert_eq!(c.mappings.lookup(&String::from("x")), None);
}

#[test]
fn read_requests_carry_the_mapping_and_space() {
    let reqs = build_read_requests(&vec![0xE04600, 0x10, 0xE04680, 4], 3);
    assert_eq!(reqs.len(), 2);
    assert_eq!(reqs[0].request_address, 0xE04600);
    assert_eq!(reqs[0].size, 0x10);
    assert_eq!(reqs[0].request_memory_mapping, 3);
    assert_eq!(reqs[0].request_address_space, AddressSpace::FxPakPro);
    assert_eq!(reqs[1].request_address, 0xE04680);
    assert_eq!(reqs[1].size, 4);
}

#[test]
fn start_selects_the_engine_case_insensitively() {
    let mut rc = RandomizerClient::new(String::from("guid"));
    rc.context.session = Some(seed("SMZ3", "Multiworld"));
    let r = rc.start(String::from("devA")).unwrap();
    assert!(r);
    assert!(rc.game_client.is_some());
    assert_eq!(rc.context.device, "devA");
}

#[test]
fn start_leaves_unknown_games_without_an_engine() {
    let mut rc = RandomizerClient::new(String::from("guid"));
    rc.context.session = Some(seed("smz3", "solo"));
    let r = rc.start(String::from("devA")).unwrap();
    assert!(r);
    assert!(rc.game_client.is_none());
}

#[test]
fn start_without_a_session_fails() {
    let mut rc = RandomizerClient::new(String::from("guid"));
    let r = rc.start(String::from("devA"));
    assert!(matches!(r, Err(ClientError::Precondition { .. })));
}

#[test]
fn case_insensitive_comparison() {
    assert!(ascii_eq_nocase("SMZ3", "smz3"));
    assert!(ascii_eq_nocase("MultiWorld", "multiworld"));
    assert!(!ascii_eq_nocase("smz3", "smz"));
    assert!(!ascii_eq_nocase("smz3", "smz4"));
}

#[test]
fn send_event_carries_the_client_world() {
    let client = ClientData {
        client_token: String::from("t"),
        world_id: 5,
    };
    let ev = build_send_event(
        &client,
        EventKind::ItemFound,
        2,
        0x77,
        9,
        4,
        false,
        String::from("hi"),
    );
    assert_eq!(ev.id, 0);
    assert_eq!(ev.event_type, EventKind::ItemFound);
    assert_eq!(ev.from_world_id, 5);
    assert_eq!(ev.to_world_id, 2);
    assert_eq!(ev.item_id, 0x77);
    assert_eq!(ev.item_location, 9);
    assert_eq!(ev.sequence_num, 4);
    assert!(!ev.confirmed);
    assert_eq!(ev.message, "hi");
    assert_eq!(ev.time_stamp, "");
}

#[test]
fn forfeit_event_shape() {
    let client = ClientData {
        client_token: String::from("t"),
        world_id: 5,
    };
    let ev = forfeit_event(&client);
    assert_eq!(ev.event_type, EventKind::Forfeit);
    assert_eq!(ev.from_world_id, 5);
    assert_eq!(ev.to_world_id, 0);
    assert_eq!(ev.message, "Forfeit");
}

#[test]
fn report_params_fall_back_without_a_client() {
    let ctx = ClientContext {
        session: Some(SessionData { seed: None }),
        client: None,
        device: String::new(),
        connected: false,
        session_guid: String::from("g"),
    };
    let (seed_id, token, world) = report_params(&ctx);
    assert_eq!(seed_id, -1);
    assert_eq!(token, "");
    assert_eq!(world, -1);

    let ctx = ClientContext {
        session: Some(seed("smz3", "multiworld")),
        client: Some(ClientData {
            client_token: String::from("tok"),
            world_id: 2,
        }),
        device: String::new(),
        connected: false,
        session_guid: String::from("g"),
    };
    let (seed_id, token, world) = report_params(&ctx);
    assert_eq!(seed_id, 1);
    assert_eq!(token, "tok");
    assert_eq!(world, 2);
}

#[test]
fn notification_codes() {
    assert_eq!(Message::ConsoleDisconnected.code(), 0);
    assert_eq!(Message::ConsoleReconnecting.code(), 1);
    assert_eq!(
        Message::ConsoleConnected {
            device: String::new()
        }
        .code(),
        2
    );
    assert_eq!(
        Message::ConsoleError {
            message: String::new()
        }
        .code(),
        3
    );
    assert_eq!(
        Message::GameState {
            message: String::new()
        }
        .code(),
        4
    );
    assert_eq!(Message::ItemsConfirmed { ids: Vec::new() }.code(), 7);
}

#[test]
fn transport_errors_force_a_reconnect() {
    let e = ClientError::Transport {
        message: String::from("x"),
    };
    assert!(randomizer_client::supervisor::failure_forces_reconnect(&e));
    let e = ClientError::Backend {
        message: String::from("x"),
    };
    assert!(!randomizer_client::supervisor::failure_forces_reconnect(&e));
    assert_eq!(e.message(), "x");
}
