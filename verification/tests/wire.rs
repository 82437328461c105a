use map_server::wire::{
    build_game_message, contains_target_path, count_end_events, count_messages, count_set_music,
    decode_x01_rows, send_message_body, OP_SEND_MESSAGE, OP_SET_MUSIC,
    event_start_body, parse_frame, SubPacket, WireError, OP_COMMAND_RESULT_X01, OP_END_EVENT,
};

#[test]
fn game_message_round_trips_through_parse() {
    let body = [1u8, 2, 3, 4, 5];
    let bytes = build_game_message(7, 42, 0x0194, 99, &body);
    assert_eq!(bytes.len(), 0x25);
    assert_eq!(u16::from_le_bytes([bytes[0x12], bytes[0x13]]), 0x0194);
    let mut off = 0;
    let sub = SubPacket::parse(&bytes, &mut off).unwrap();
    assert_eq!(off, bytes.len());
    assert_eq!(sub.header.size, 0x25);
    assert_eq!(sub.header.packet_type, 3);
    assert_eq!(sub.header.source_id, 7);
    assert_eq!(sub.header.target_id, 42);
    assert_eq!(sub.game_message.opcode, 0x0194);
    assert_eq!(sub.game_message.timestamp, 99);
    assert_eq!(sub.data, body.to_vec());
}

#[test]
fn parse_reports_short_and_bad_frames() {
    let mut off = 0;
    assert_eq!(SubPacket::parse(&[0u8; 8], &mut off), Err(WireError::Truncated));
    assert_eq!(off, 0);
    // Declared size 0x10 but a game message needs 0x20.
    let mut bad = vec![0u8; 0x20];
    bad[0] = 0x10;
    bad[2] = 3;
    assert_eq!(SubPacket::parse(&bad, &mut off), Err(WireError::BadSize));
    // Declared size past the end.
    let mut long = build_game_message(1, 2, 3, 4, &[]);
    long[0] = 0x40;
    assert_eq!(SubPacket::parse(&long, &mut off), Err(WireError::Truncated));
    assert_eq!(off, 0);
}

#[test]
fn raw_subpacket_body_follows_first_header() {
    let mut raw = vec![0x14u8, 0, 0xDA, 0, 1, 0, 0, 0, 2, 0, 0, 0, 0, 0, 0, 0];
    raw.extend_from_slice(&[9, 8, 7, 6]);
    let mut off = 0;
    let sub = SubPacket::parse(&raw, &mut off).unwrap();
    assert_eq!(sub.header.packet_type, 0xDA);
    assert_eq!(sub.game_message.opcode, 0);
    assert_eq!(sub.data, vec![9, 8, 7, 6]);
}

fn x01_body(anim: u32, cmd: u16, target: u32, amount: u16, text: u16) -> Vec<u8> {
    let mut d = vec![0u8; 0x30];
    d[0x04..0x08].copy_from_slice(&anim.to_le_bytes());
    d[0x24..0x26].copy_from_slice(&cmd.to_le_bytes());
    d[0x28..0x2C].copy_from_slice(&target.to_le_bytes());
    d[0x2C..0x2E].copy_from_slice(&amount.to_le_bytes());
    d[0x2E..0x30].copy_from_slice(&text.to_le_bytes());
    d
}

#[test]
fn frame_splits_into_subpackets_and_rows_decode() {
    let mut frame = build_game_message(1, 42, OP_COMMAND_RESULT_X01, 0, &x01_body(301_995_007, 27150, 2, 120, 30_301));
    frame.extend(build_game_message(1, 42, OP_END_EVENT, 0, &[]));
    frame.extend(build_game_message(1, 42, OP_COMMAND_RESULT_X01, 0, &x01_body(0, 27150, 0, 0, 32_535)));
    frame.extend_from_slice(&[0xFF, 0xFF]);
    let subs = parse_frame(&frame);
    assert_eq!(subs.len(), 3);
    assert_eq!(count_end_events(&subs), 1);
    assert_eq!(
        decode_x01_rows(&subs),
        vec![(301_995_007, 27150, 2, 120, 30_301), (0, 27150, 0, 0, 32_535)]
    );
}

#[test]
fn target_path_search_scans_bodies() {
    let frame = build_game_message(1, 42, 0x0137, 0, b"xxcharaWork/commandDetailForSelfyy");
    let subs = parse_frame(&frame);
    assert!(contains_target_path(&subs, b"charaWork/commandDetailForSelf"));
    assert!(!contains_target_path(&subs, b"charaWork/stateAtQuicklyForAll"));
    assert!(!contains_target_path(&[], b"x"));
}

#[test]
fn event_start_body_layout() {
    let body = event_start_body(1, 0xA0F0_6A0E, "commandDefault", &[0x06, 0, 0, 0, 2, 0x0F]);
    assert_eq!(&body[0..4], &1u32.to_le_bytes());
    assert_eq!(&body[4..8], &0xA0F0_6A0Eu32.to_le_bytes());
    assert_eq!(&body[8..12], &0x2680_0000u32.to_le_bytes());
    assert_eq!(&body[12..16], &[0, 0, 0, 0]);
    assert_eq!(body[16], 0);
    assert_eq!(&body[17..31], b"commandDefault");
    assert!(body[31..49].iter().all(|b| *b == 0));
    assert_eq!(&body[49..], &[0x06, 0, 0, 0, 2, 0x0F]);
    // A name of 32 bytes or more keeps its NUL terminator.
    let long = event_start_body(0, 0, "abcdefghijklmnopqrstuvwxyz0123456789", &[]);
    assert_eq!(long.len(), 49);
    assert_eq!(&long[17..48], b"abcdefghijklmnopqrstuvwxyz01234");
    assert_eq!(long[48], 0);
}

#[test]
fn drain_set_music_count_counts_only_music_messages() {
    let mut frame = build_game_message(1, 7, OP_SET_MUSIC, 0, &[7, 0, 0, 0]);
    frame.extend(build_game_message(1, 7, OP_END_EVENT, 0, &[]));
    frame.extend(build_game_message(1, 7, OP_SET_MUSIC, 0, &[8, 0, 0, 0]));
    let subs = parse_frame(&frame);
    assert_eq!(subs.len(), 3);
    assert_eq!(count_set_music(&subs), 2);
    assert_eq!(count_end_events(&subs), 1);
    assert_eq!(count_messages(&subs, 0x0194), 0);
}

#[test]
fn send_message_login_hook_emits_0x0003_to_self() {
    let body = send_message_body("", 0x20, "hello world");
    let frame = build_game_message(7, 7, OP_SEND_MESSAGE, 0, &body);
    let subs = parse_frame(&frame);
    assert_eq!(subs.len(), 1, "exactly one SendMessage subpacket");
    let sub = &subs[0];
    assert_eq!(sub.game_message.opcode, 0x0003);
    assert_eq!(sub.header.target_id, 7);
    assert!(sub.data[..0x20].iter().all(|b| *b == 0), "empty sender slot");
    assert_eq!(&sub.data[0x20..0x24], &[0x20, 0, 0, 0], "message type 0x20");
    assert_eq!(&sub.data[0x24..0x24 + 11], b"hello world", "text body");
    assert_eq!(sub.data[0x24 + 11], 0);
}

#[test]
fn send_message_body_cuts_long_fields_and_keeps_a_terminator() {
    let long_sender = "S".repeat(40);
    let long_text = "t".repeat(600);
    let body = send_message_body(&long_sender, 1, &long_text);
    assert_eq!(body.len(), 0x20 + 4 + 0x200);
    assert!(body[..0x1F].iter().all(|b| *b == b'S'));
    assert_eq!(body[0x1F], 0);
    assert_eq!(&body[0x20..0x24], &[1, 0, 0, 0]);
    assert!(body[0x24..0x24 + 0x1FF].iter().all(|b| *b == b't'));
    assert_eq!(body[0x24 + 0x1FF], 0);
    let runtime = send_message_body("Npc", 0x20, "runtime line");
    assert_eq!(&runtime[..3], b"Npc");
    assert_eq!(&runtime[0x24..0x24 + 12], b"runtime line");
}
