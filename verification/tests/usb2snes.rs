use randomizer_client::errors::ClientError;
use randomizer_client::usb2snes::{
    attach_request, command_request, get_size, plan_get, plan_put, read_response_step,
    split_by_sizes, Command, CommandResponse, ConnAction, ConnState, Frame, GetPlan, PutPlan,
    ResponseKind, Socket, Usb2SnesConnection,
};

fn ops(v: &[&str]) -> Vec<String> {
    v.iter().map(|s| String::from(*s)).collect()
}

#[test]
fn socket_lifecycle_keeps_state_consistency() {
    let mut s = Socket::new();
    assert!(!s.stream_open);
    assert_eq!(s.state, ConnState::Disconnected);
    assert!(s.device.is_empty());

    s.on_connected();
    assert!(s.stream_open);
    assert_eq!(s.state, ConnState::Connected);
    assert!(s.device.is_empty());

    s.on_attached(String::from("SD2SNES COM3"));
    assert!(s.stream_open);
    assert_eq!(s.state, ConnState::Attached);
    assert_eq!(s.device, "SD2SNES COM3");

    s.on_closed();
    assert!(!s.stream_open);
    assert_eq!(s.state, ConnState::Disconnected);
    assert!(s.device.is_empty());
}

#[test]
fn precheck_forces_disconnect_on_dead_stream() {
    let mut s = Socket::new();
    s.on_connected();
    s.on_attached(String::from("d"));
    s.precheck(true);
    assert_eq!(s.state, ConnState::Attached);
    s.precheck(false);
    assert_eq!(s.state, ConnState::Disconnected);
    assert!(!s.stream_open);
    assert!(s.device.is_empty());
}

#[test]
fn connection_action_table() {
    let mut s = Socket::new();
    let want = String::from("devA");
    assert!(matches!(s.connection_action(Some(&want)), ConnAction::DoConnect));
    assert!(matches!(s.connection_action(None), ConnAction::DoConnect));

    s.on_connected();
    assert!(matches!(s.connection_action(None), ConnAction::Stay));
    match s.connection_action(Some(&want)) {
        ConnAction::DoAttach(d) => assert_eq!(d, "devA"),
        other => panic!("expected DoAttach, got {:?}", other),
    }

    s.on_attached(String::from("devA"));
    assert!(matches!(s.connection_action(Some(&want)), ConnAction::Stay));
    let other_dev = String::from("devB");
    match s.connection_action(Some(&other_dev)) {
        ConnAction::DoAttach(d) => assert_eq!(d, "devB"),
        other => panic!("expected DoAttach, got {:?}", other),
    }
    assert!(matches!(s.connection_action(None), ConnAction::Stay));
}

#[test]
fn new_connection_starts_disconnected() {
    let c = Usb2SnesConnection::new("ws://127.0.0.1:23074");
    assert_eq!(c.uri, "ws://127.0.0.1:23074");
    assert_eq!(c.socket.state, ConnState::Disconnected);
}

#[test]
fn vectored_read_at_the_limit() {
    // Pairs [(0x100, 0x80), (0x200, 0x7F)], total 0xFF: one GetAddress
    // with operands ["100", "80", "200", "7F"].
    let pairs = vec![0x100u32, 0x80, 0x200, 0x7F];
    match plan_get(&pairs) {
        GetPlan::Vectored { operands } => {
            assert_eq!(operands, ops(&["100", "80", "200", "7F"]));
            let req = command_request(&Command::GetAddress(operands)).unwrap();
            assert_eq!(req.response, ResponseKind::Binary(0xFF));
            assert!(req.binary.is_none());
        }
        other => panic!("expected a vectored plan, got {:?}", other),
    }
    // A 0xFF-byte response splits into two buffers of 0x80 and 0x7F in
    // order.
    let mut data = Vec::new();
    for i in 0..0xFF {
        data.push(i as u8);
    }
    let chunks = split_by_sizes(&data, &pairs).unwrap();
    assert_eq!(chunks.len(), 2);
    assert_eq!(chunks[0], data[0..0x80].to_vec());
    assert_eq!(chunks[1], data[0x80..0xFF].to_vec());
}

#[test]
fn vectored_read_over_the_limit() {
    // Pairs [(0x100, 0x80), (0x200, 0x80)], total 0x100: two single
    // GetAddress commands.
    let pairs = vec![0x100u32, 0x80, 0x200, 0x80];
    match plan_get(&pairs) {
        GetPlan::Singles { commands } => {
            assert_eq!(commands.len(), 2);
            assert_eq!(commands[0], ops(&["100", "80"]));
            assert_eq!(commands[1], ops(&["200", "80"]));
        }
        other => panic!("expected singles, got {:?}", other),
    }
}

#[test]
fn single_pair_read_is_not_vectored() {
    let pairs = vec![0x100u32, 0x10];
    assert!(matches!(plan_get(&pairs), GetPlan::Singles { .. }));
}

#[test]
fn seventeen_pair_read_is_not_vectored() {
    let mut pairs = Vec::new();
    for i in 0..17u32 {
        pairs.push(0x100 + i);
        pairs.push(1);
    }
    assert!(matches!(plan_get(&pairs), GetPlan::Singles { .. }));
    // Sixteen pairs under the byte limit stay vectored.
    pairs.truncate(32);
    assert!(matches!(plan_get(&pairs), GetPlan::Vectored { .. }));
}

#[test]
fn vectored_write_limits() {
    let addrs = vec![0x100u32, 0x200];
    let data = vec![vec![1u8, 2], vec![3u8]];
    match plan_put(&addrs, &data) {
        PutPlan::Vectored { operands, payload } => {
            assert_eq!(operands, ops(&["100", "2", "200", "1"]));
            assert_eq!(payload, vec![1, 2, 3]);
        }
        other => panic!("expected a vectored plan, got {:?}", other),
    }

    // Nine pairs fall back to singles (write cap is eight).
    let addrs: Vec<u32> = (0..9).map(|i| 0x100 + i).collect();
    let data: Vec<Vec<u8>> = (0..9).map(|_| vec![0u8]).collect();
    match plan_put(&addrs, &data) {
        PutPlan::Singles { commands } => {
            assert_eq!(commands.len(), 9);
            assert_eq!(commands[0].0, ops(&["100", "1"]));
            assert_eq!(commands[0].1, vec![0u8]);
        }
        other => panic!("expected singles, got {:?}", other),
    }

    // 256 bytes in total fall back to singles.
    let addrs = vec![0x100u32, 0x200];
    let data = vec![vec![0u8; 0x80], vec![0u8; 0x80]];
    assert!(matches!(plan_put(&addrs, &data), PutPlan::Singles { .. }));
}

#[test]
fn get_size_sums_the_size_operands() {
    assert_eq!(get_size(&ops(&["100", "80", "200", "7F"])).unwrap(), 0xFF);
    assert_eq!(get_size(&ops(&["100", "10"])).unwrap(), 0x10);
    assert!(matches!(
        get_size(&ops(&["100", "XYZ"])),
        Err(ClientError::Protocol { .. })
    ));
}

#[test]
fn command_request_table() {
    let r = command_request(&Command::DeviceList).unwrap();
    assert_eq!(r.response, ResponseKind::Text);
    assert!(r.text.contains("\"Opcode\":\"DeviceList\""));

    let r = command_request(&Command::AppVersion).unwrap();
    assert_eq!(r.response, ResponseKind::Text);

    let r = command_request(&Command::PutAddress(ops(&["100", "2"]), vec![7, 8])).unwrap();
    assert_eq!(r.response, ResponseKind::NoReply);
    assert_eq!(r.binary, Some(vec![7, 8]));

    assert!(matches!(
        command_request(&Command::Menu),
        Err(ClientError::Protocol { .. })
    ));
}

#[test]
fn attach_request_wire_form() {
    let r = attach_request(&String::from("SD2SNES COM3"));
    assert_eq!(
        r,
        "{\"Opcode\":\"Attach\",\"Space\":\"SNES\",\"Flags\":null,\"Operands\":[\"SD2SNES COM3\"]}"
    );
}

#[test]
fn text_response_parses_results() {
    let mut buf = Vec::new();
    let r = read_response_step(
        &ResponseKind::Text,
        &mut buf,
        Frame::Text(String::from("{\"Results\":[\"a\"]}")),
    );
    match r {
        Ok(Some(CommandResponse::Response(v))) => assert_eq!(v, vec![String::from("a")]),
        other => panic!("unexpected {:?}", other),
    }
}

#[test]
fn binary_frame_in_text_mode_is_a_framing_error() {
    let mut buf = Vec::new();
    let r = read_response_step(&ResponseKind::Text, &mut buf, Frame::Binary(vec![1]));
    assert!(matches!(r, Err(ClientError::Protocol { .. })));
}

#[test]
fn binary_response_accumulates_frames() {
    let mut buf = Vec::new();
    let r = read_response_step(&ResponseKind::Binary(4), &mut buf, Frame::Binary(vec![1, 2]));
    assert!(matches!(r, Ok(None)));
    let r = read_response_step(&ResponseKind::Binary(4), &mut buf, Frame::Binary(vec![3, 4]));
    match r {
        Ok(Some(CommandResponse::Data(d))) => assert_eq!(d, vec![1, 2, 3, 4]),
        other => panic!("unexpected {:?}", other),
    }
    assert!(buf.is_empty());
}

#[test]
fn text_frame_in_binary_mode_is_a_framing_error() {
    let mut buf = Vec::new();
    let r = read_response_step(
        &ResponseKind::Binary(4),
        &mut buf,
        Frame::Text(String::from("x")),
    );
    assert!(matches!(r, Err(ClientError::Protocol { .. })));
}
