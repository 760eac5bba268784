use randomizer_client::context::{
    ClientContext, ClientData, EventKind, Message, SeedData, SessionData, SessionEvent, WorldData,
};
use randomizer_client::engine::{GameState, SMZ3Client, TickInput, TickRequest};
use randomizer_client::errors::ClientError;

const SESSION_GUID: &str = "0123456789abcdef0123456789abcdef";
const WORLD_GUID: &str = "fedcba9876543210fedcba9876543210";

fn test_ctx() -> ClientContext {
    ClientContext {
        session: Some(SessionData {
            seed: Some(SeedData {
                id: 7,
                game_id: String::from("smz3"),
                game_mode: String::from("multiworld"),
                worlds: vec![
                    WorldData {
                        world_id: 0,
                        guid: String::from("otherworldotherworldotherworld00"),
                    },
                    WorldData {
                        world_id: 1,
                        guid: String::from(WORLD_GUID),
                    },
                ],
            }),
        }),
        client: Some(ClientData {
            client_token: String::from("token"),
            world_id: 1,
        }),
        device: String::from("SD2SNES COM3"),
        connected: true,
        session_guid: String::from(SESSION_GUID),
    }
}

fn event(id: i32, from: i32, item: i32) -> SessionEvent {
    SessionEvent {
        id,
        event_type: EventKind::ItemFound,
        from_world_id: from,
        to_world_id: 1,
        item_id: item,
        item_location: 0,
        sequence_num: 0,
        confirmed: false,
        message: String::new(),
        time_stamp: String::new(),
    }
}

fn running_client() -> SMZ3Client {
    let mut c = SMZ3Client::new();
    c.game_state = GameState::Running;
    c
}

/// The inbound header: read_ptr, write_ptr, two spare words, event id.
fn in_header(read_ptr: u16, write_ptr: u16, event_id: i32) -> Vec<u8> {
    let mut b = Vec::new();
    b.extend_from_slice(&read_ptr.to_le_bytes());
    b.extend_from_slice(&write_ptr.to_le_bytes());
    b.extend_from_slice(&[0u8; 4]);
    b.extend_from_slice(&event_id.to_le_bytes());
    b.extend_from_slice(&[0u8; 4]);
    b
}

#[test]
fn initialized_tick_emits_detecting() {
    let mut c = SMZ3Client::new();
    let ctx = test_ctx();
    let step = c.update(&ctx, TickInput::Start).unwrap();
    assert!(matches!(step.request, TickRequest::Done));
    assert_eq!(step.notices.len(), 1);
    match &step.notices[0] {
        Message::GameState { message } => assert_eq!(message, "Detecting game"),
        other => panic!("unexpected notice {:?}", other),
    }
    assert_eq!(c.game_state, GameState::Detecting);
}

#[test]
fn update_without_client_is_a_precondition_error() {
    let mut c = SMZ3Client::new();
    let mut ctx = test_ctx();
    ctx.client = None;
    let r = c.update(&ctx, TickInput::Start);
    assert!(matches!(r, Err(ClientError::Precondition { .. })));
}

#[test]
fn detecting_without_session_is_a_precondition_error() {
    let mut c = SMZ3Client::new();
    c.game_state = GameState::Detecting;
    let mut ctx = test_ctx();
    ctx.session = None;
    let r = c.update(&ctx, TickInput::Start);
    assert!(matches!(r, Err(ClientError::Precondition { .. })));
}

#[test]
fn detecting_match_reports_ready_and_runs() {
    // seed_data[0x10..0x30] holds the session GUID and [0x30..0x50] the
    // world GUID: the engine reports the player ready and transitions to
    // Running.
    let mut c = SMZ3Client::new();
    c.game_state = GameState::Detecting;
    let ctx = test_ctx();

    let step = c.update(&ctx, TickInput::Start).unwrap();
    match step.request {
        TickRequest::ReadMem { addr, size } => {
            assert_eq!(addr, 0xE046A0);
            assert_eq!(size, 0x50);
        }
        other => panic!("unexpected request {:?}", other),
    }

    let mut sram = vec![0u8; 0x50];
    sram[0x10..0x30].copy_from_slice(SESSION_GUID.as_bytes());
    sram[0x30..0x50].copy_from_slice(WORLD_GUID.as_bytes());
    let step = c.update(&ctx, TickInput::Bytes(sram)).unwrap();
    match step.request {
        TickRequest::UpdatePlayer { device } => assert_eq!(device, "SD2SNES COM3"),
        other => panic!("unexpected request {:?}", other),
    }

    let step = c.update(&ctx, TickInput::Acked).unwrap();
    assert!(matches!(step.request, TickRequest::Done));
    assert_eq!(step.notices.len(), 1);
    match &step.notices[0] {
        Message::GameState { message } => assert_eq!(message, "Multiworld session running"),
        other => panic!("unexpected notice {:?}", other),
    }
    assert_eq!(c.game_state, GameState::Running);
}

#[test]
fn detecting_mismatch_stays_detecting() {
    let mut c = SMZ3Client::new();
    c.game_state = GameState::Detecting;
    let ctx = test_ctx();
    let _ = c.update(&ctx, TickInput::Start).unwrap();
    let sram = vec![0u8; 0x50];
    let step = c.update(&ctx, TickInput::Bytes(sram)).unwrap();
    assert!(matches!(step.request, TickRequest::Done));
    assert!(step.notices.is_empty());
    assert_eq!(c.game_state, GameState::Detecting);
}

#[test]
fn running_inbound_writes_payload_then_pointers() {
    // snes_write_ptr = 3, snes_event_id = 41; the backend returns events
    // {id: 42, from: 1, item: 0x55} and {id: 43, from: 2, item: 0x66}.
    let mut c = running_client();
    let ctx = test_ctx();

    let step = c.update(&ctx, TickInput::Start).unwrap();
    match step.request {
        TickRequest::ReadMem { addr, size } => {
            assert_eq!(addr, 0xE04600);
            assert_eq!(size, 0x10);
        }
        other => panic!("unexpected request {:?}", other),
    }

    let hdr = in_header(1, 3, 41);
    let step = c.update(&ctx, TickInput::Bytes(hdr.clone())).unwrap();
    assert!(matches!(step.request, TickRequest::ReadMem { .. }));
    let step = c.update(&ctx, TickInput::Bytes(hdr)).unwrap();
    match step.request {
        TickRequest::FetchEvents { from_event_id, to_world_id } => {
            assert_eq!(from_event_id, 42);
            assert_eq!(to_world_id, 1);
        }
        other => panic!("unexpected request {:?}", other),
    }

    let evs = vec![event(42, 1, 0x55), event(43, 2, 0x66)];
    let step = c.update(&ctx, TickInput::Events(evs)).unwrap();
    assert_eq!(step.notices.len(), 2);
    assert!(matches!(&step.notices[0], Message::ItemReceived { event } if event.id == 42));
    assert!(matches!(&step.notices[1], Message::ItemReceived { event } if event.id == 43));
    let payload = vec![0x01, 0x00, 0x55, 0x00, 0x02, 0x00, 0x66, 0x00];
    match &step.request {
        TickRequest::WriteMem { addr, data } => {
            assert_eq!(*addr, 0xE04000 + 0x0C);
            assert_eq!(*data, payload);
        }
        other => panic!("unexpected request {:?}", other),
    }

    // The payload write is verified before the pointers are touched.
    let step = c.update(&ctx, TickInput::Written).unwrap();
    match step.request {
        TickRequest::ReadMem { addr, size } => {
            assert_eq!(addr, 0xE04000 + 0x0C);
            assert_eq!(size, 8);
        }
        other => panic!("unexpected request {:?}", other),
    }

    // A mismatched read-back retries the payload write.
    let step = c.update(&ctx, TickInput::Bytes(vec![0u8; 8])).unwrap();
    assert!(matches!(step.request, TickRequest::WriteMem { .. }));
    let step = c.update(&ctx, TickInput::Written).unwrap();
    assert!(matches!(step.request, TickRequest::ReadMem { .. }));

    // A matching read-back moves on to the two pointer fields.
    let step = c.update(&ctx, TickInput::Bytes(payload)).unwrap();
    match &step.request {
        TickRequest::WriteMemMulti { addrs, data } => {
            assert_eq!(*addrs, vec![0xE04602, 0xE04608]);
            assert_eq!(*data, vec![vec![0x05, 0x00], vec![0x2B, 0x00, 0x00, 0x00]]);
        }
        other => panic!("unexpected request {:?}", other),
    }

    let step = c.update(&ctx, TickInput::Written).unwrap();
    match &step.request {
        TickRequest::ReadMemMulti { pairs } => {
            assert_eq!(*pairs, vec![0xE04602, 2, 0xE04608, 4]);
        }
        other => panic!("unexpected request {:?}", other),
    }

    let chunks = vec![vec![0x05, 0x00], vec![0x2B, 0x00, 0x00, 0x00]];
    let step = c.update(&ctx, TickInput::Chunks(chunks)).unwrap();
    match step.request {
        TickRequest::ReadMem { addr, size } => {
            assert_eq!(addr, 0xE04680);
            assert_eq!(size, 4);
        }
        other => panic!("unexpected request {:?}", other),
    }
    assert_eq!(c.verified_events, vec![42, 43]);

    // No outbound messages; the committed ids are confirmed upstream.
    let out_hdr = vec![0, 0, 0, 0];
    let step = c.update(&ctx, TickInput::Bytes(out_hdr.clone())).unwrap();
    assert!(matches!(step.request, TickRequest::ReadMem { .. }));
    let step = c.update(&ctx, TickInput::Bytes(out_hdr)).unwrap();
    match &step.request {
        TickRequest::ConfirmEvents { ids } => assert_eq!(*ids, vec![42, 43]),
        other => panic!("unexpected request {:?}", other),
    }
    let step = c.update(&ctx, TickInput::Acked).unwrap();
    assert!(matches!(step.request, TickRequest::Done));
    assert_eq!(step.notices.len(), 1);
    assert!(matches!(&step.notices[0], Message::ItemsConfirmed { ids } if *ids == vec![42, 43]));
    assert!(c.verified_events.is_empty());
}

#[test]
fn running_outbound_with_disconnect_advances_once() {
    // sync_read_ptr = 0, snes_write_ptr = 1, one slot (to = 2,
    // item = 0x77, index = 5).  The send succeeds; the read-back of the
    // advanced sync pointer fails with a transport error; the replayed
    // tick advances the pointer to 1 exactly once.
    let mut c = running_client();
    let ctx = test_ctx();

    let _ = c.update(&ctx, TickInput::Start).unwrap();
    let hdr = in_header(0, 0, 100);
    let _ = c.update(&ctx, TickInput::Bytes(hdr.clone())).unwrap();
    let _ = c.update(&ctx, TickInput::Bytes(hdr)).unwrap();
    let step = c.update(&ctx, TickInput::Events(Vec::new())).unwrap();
    assert!(matches!(step.request, TickRequest::ReadMem { .. }));

    let out_hdr = vec![0x00, 0x00, 0x01, 0x00];
    let _ = c.update(&ctx, TickInput::Bytes(out_hdr.clone())).unwrap();
    let step = c.update(&ctx, TickInput::Bytes(out_hdr)).unwrap();
    match step.request {
        TickRequest::ReadMem { addr, size } => {
            assert_eq!(addr, 0xE04700);
            assert_eq!(size, 8);
        }
        other => panic!("unexpected request {:?}", other),
    }

    let slot = vec![0x02, 0x00, 0x77, 0x00, 0x05, 0x00, 0x00, 0x00];
    let step = c.update(&ctx, TickInput::Bytes(slot)).unwrap();
    let sent = match step.request {
        TickRequest::SendEvent { event } => {
            assert_eq!(event.event_type, EventKind::ItemFound);
            assert_eq!(event.from_world_id, 1);
            assert_eq!(event.to_world_id, 2);
            assert_eq!(event.item_id, 0x77);
            assert_eq!(event.item_location, 5);
            assert_eq!(event.sequence_num, 0);
            assert!(!event.confirmed);
            assert_eq!(
                event.message,
                "Sent item 119 at location 5 from world 1 to world 2"
            );
            event
        }
        other => panic!("unexpected request {:?}", other),
    };

    // All sends complete before the sync pointer is advanced.
    let step = c.update(&ctx, TickInput::EventSent(sent)).unwrap();
    assert_eq!(step.notices.len(), 1);
    assert!(matches!(&step.notices[0], Message::ItemFound { .. }));
    match &step.request {
        TickRequest::WriteMem { addr, data } => {
            assert_eq!(*addr, 0xE04680);
            assert_eq!(*data, vec![0x01, 0x00]);
        }
        other => panic!("unexpected request {:?}", other),
    }

    // The read-back fails with a transport error: the tick aborts.
    let step = c.update(&ctx, TickInput::Written).unwrap();
    assert!(matches!(step.request, TickRequest::ReadMem { .. }));
    let r = c.update(
        &ctx,
        TickInput::Failed(ClientError::Transport {
            message: String::from("stream closed"),
        }),
    );
    assert!(matches!(r, Err(ClientError::Transport { .. })));

    // After a reconnect the tick replays: the write was applied, so the
    // console now shows sync_read_ptr = 1 and nothing is re-sent.
    let _ = c.update(&ctx, TickInput::Start).unwrap();
    let hdr = in_header(0, 0, 100);
    let _ = c.update(&ctx, TickInput::Bytes(hdr.clone())).unwrap();
    let _ = c.update(&ctx, TickInput::Bytes(hdr)).unwrap();
    let _ = c.update(&ctx, TickInput::Events(Vec::new())).unwrap();
    let out_hdr = vec![0x01, 0x00, 0x01, 0x00];
    let _ = c.update(&ctx, TickInput::Bytes(out_hdr.clone())).unwrap();
    let step = c.update(&ctx, TickInput::Bytes(out_hdr)).unwrap();
    assert!(matches!(step.request, TickRequest::Done));
}

#[test]
fn torn_header_read_retries_until_stable() {
    let mut c = running_client();
    let ctx = test_ctx();
    let _ = c.update(&ctx, TickInput::Start).unwrap();
    let first = in_header(0, 2, 10);
    let second = in_header(0, 3, 10);
    let _ = c.update(&ctx, TickInput::Bytes(first)).unwrap();
    // The two reads differ: the double read restarts.
    let step = c.update(&ctx, TickInput::Bytes(second.clone())).unwrap();
    match step.request {
        TickRequest::ReadMem { addr, size } => {
            assert_eq!(addr, 0xE04600);
            assert_eq!(size, 0x10);
        }
        other => panic!("unexpected request {:?}", other),
    }
    let _ = c.update(&ctx, TickInput::Bytes(second.clone())).unwrap();
    let step = c.update(&ctx, TickInput::Bytes(second)).unwrap();
    assert!(matches!(step.request, TickRequest::FetchEvents { .. }));
}

#[test]
fn wrong_shaped_input_is_a_precondition_error() {
    let mut c = running_client();
    let ctx = test_ctx();
    let r = c.update(&ctx, TickInput::Written);
    assert!(matches!(r, Err(ClientError::Precondition { .. })));
}

#[test]
fn short_read_is_a_protocol_error() {
    let mut c = running_client();
    let ctx = test_ctx();
    let _ = c.update(&ctx, TickInput::Start).unwrap();
    let r = c.update(&ctx, TickInput::Bytes(vec![0u8; 3]));
    assert!(matches!(r, Err(ClientError::Protocol { .. })));
}

#[test]
fn inbound_event_at_the_field_limit_encodes() {
    let mut c = running_client();
    let ctx = test_ctx();
    let _ = c.update(&ctx, TickInput::Start).unwrap();
    let hdr = in_header(0, 0, 0);
    let _ = c.update(&ctx, TickInput::Bytes(hdr.clone())).unwrap();
    let _ = c.update(&ctx, TickInput::Bytes(hdr)).unwrap();
    let evs = vec![event(1, 0xFFFF, 0xFFFF)];
    let step = c.update(&ctx, TickInput::Events(evs)).unwrap();
    match &step.request {
        TickRequest::WriteMem { addr, data } => {
            assert_eq!(*addr, 0xE04000);
            assert_eq!(*data, vec![0xFF, 0xFF, 0xFF, 0xFF]);
        }
        other => panic!("unexpected request {:?}", other),
    }
}

#[test]
fn custom_base_addresses_are_used() {
    let mut c = SMZ3Client::new_with_options(0x700000, 0x7046A0);
    c.game_state = GameState::Running;
    let ctx = test_ctx();
    let step = c.update(&ctx, TickInput::Start).unwrap();
    match step.request {
        TickRequest::ReadMem { addr, size } => {
            assert_eq!(addr, 0x700600);
            assert_eq!(size, 0x10);
        }
        other => panic!("unexpected request {:?}", other),
    }
}
