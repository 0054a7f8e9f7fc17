use hoshino::render::kitty_one_shot::{
    base64, image_id, next_counter, serialize, SerializeError, SerializedImage, DIACRITICS, ESC,
    MAX_CHUNK,
};


#[derive(Debug, Eq, PartialEq)]
struct ParsedCommand {
    control: Vec<u8>,
    payload: Vec<u8>,
}

fn parse_apc_stream(stream: &[u8]) -> Vec<ParsedCommand> {
    let mut commands = Vec::new();
    let mut offset = 0;
    while offset < stream.len() {
        assert!(stream.len() - offset >= 3, "truncated APC start");
        assert_eq!(&stream[offset..offset + 3], b"\x1b_G");

        let body_start = offset + 3;
        let terminator = stream[body_start..]
            .windows(2)
            .position(|window| window == b"\x1b\\")
            .expect("APC terminator");
        let body_end = body_start + terminator;
        let separator = stream[body_start..body_end]
            .iter()
            .position(|byte| *byte == b';')
            .expect("APC control/payload separator");
        let separator = body_start + separator;
        let control = stream[body_start..separator].to_vec();
        let payload = stream[separator + 1..body_end].to_vec();
        assert!(!payload.contains(&ESC), "payload contains an escape");
        assert!(!payload.contains(&b';'), "payload contains control data");
        assert!(payload.iter().all(|byte| {
            byte.is_ascii_alphanumeric() || matches!(*byte, b'+' | b'/' | b'=')
        }));
        commands.push(ParsedCommand { control, payload });
        offset = body_end + 2;
    }
    commands
}

fn frame_apc(command: &ParsedCommand) -> Vec<u8> {
    let mut frame = b"\x1b_G".to_vec();
    frame.extend(&command.control);
    frame.push(b';');
    frame.extend(&command.payload);
    frame.extend(b"\x1b\\");
    frame
}

fn control_fields(control: &[u8]) -> Vec<&[u8]> {
    control.split(|byte| *byte == b',').collect()
}

fn base64_value(byte: u8) -> u8 {
    match byte {
        b'A'..=b'Z' => byte - b'A',
        b'a'..=b'z' => byte - b'a' + 26,
        b'0'..=b'9' => byte - b'0' + 52,
        b'+' => 62,
        b'/' => 63,
        _ => panic!("invalid base64 byte: {byte:?}"),
    }
}

fn decode_base64(encoded: &[u8]) -> Vec<u8> {
    assert_eq!(encoded.len() % 4, 0, "base64 length");
    let chunk_count = encoded.len() / 4;
    let mut decoded = Vec::new();
    for (index, chunk) in encoded.chunks(4).enumerate() {
        assert!(!chunk[..2].contains(&b'='));
        let first = base64_value(chunk[0]);
        let second = base64_value(chunk[1]);
        decoded.push((first << 2) | (second >> 4));

        if chunk[2] == b'=' {
            assert_eq!(chunk[3], b'=');
            assert_eq!(index + 1, chunk_count);
            continue;
        }
        let third = base64_value(chunk[2]);
        decoded.push((second << 4) | (third >> 2));

        if chunk[3] == b'=' {
            assert_eq!(index + 1, chunk_count);
        } else {
            let fourth = base64_value(chunk[3]);
            decoded.push((third << 6) | fourth);
        }
    }
    decoded
}

fn parse_tmux_stream(stream: &[u8]) -> Vec<Vec<u8>> {
    let prefix = b"\x1bPtmux;";
    let mut commands = Vec::new();
    let mut offset = 0;
    while offset < stream.len() {
        assert!(
            stream.len() - offset >= prefix.len(),
            "truncated tmux wrapper"
        );
        assert_eq!(&stream[offset..offset + prefix.len()], prefix);
        let body_start = offset + prefix.len();
        let mut cursor = body_start;
        let mut inner = Vec::new();
        loop {
            assert!(cursor < stream.len(), "unterminated tmux wrapper");
            if stream[cursor] != ESC {
                inner.push(stream[cursor]);
                cursor += 1;
                continue;
            }
            assert!(cursor + 1 < stream.len(), "truncated tmux escape");
            match stream[cursor + 1] {
                ESC => {
                    inner.push(ESC);
                    cursor += 2;
                }
                b'\\' => {
                    cursor += 2;
                    break;
                }
                byte => panic!("unexpected tmux escape: {byte:?}"),
            }
        }
        assert!(
            !stream[body_start..cursor]
                .windows(3)
                .any(|window| window == [ESC, ESC, ESC])
        );
        assert_eq!(parse_apc_stream(&inner).len(), 1);
        commands.push(inner);
        offset = cursor;
    }
    commands
}

fn expected_placeholder_row(id: u32, row: usize, cols: usize) -> String {
    let color = id & 0x00ff_ffff;
    let mut line = format!(
        "\x1b[38;2;{};{};{}m",
        color >> 16,
        (color >> 8) & 255,
        color & 255
    );
    for &column_diacritic in DIACRITICS.iter().take(cols) {
        line.push('\u{10eeee}');
        for value in [
            DIACRITICS[row],
            column_diacritic,
            DIACRITICS[(id >> 24) as usize],
        ] {
            line.push(value);
        }
    }
    line.push_str("\x1b[0m\n");
    line
}

fn assert_exact_placeholder_rows(
    serialized: &SerializedImage,
    id: u32,
    cols: usize,
    rows: usize,
) {
    assert_eq!(serialized.placeholder_rows.len(), rows);
    for (row, actual) in serialized.placeholder_rows.iter().enumerate() {
        assert_eq!(actual, &expected_placeholder_row(id, row, cols));
        assert_eq!(actual.matches('\u{10eeee}').count(), cols);
        assert!(actual.ends_with("\x1b[0m\n"));
    }
}

fn assert_no_forbidden_terminal_sequences(bytes: &[u8]) {
    for forbidden in [
        b"\x1b[5n".as_slice(),
        b"\x1b[6n".as_slice(),
        b"\x1b[14t".as_slice(),
        b"\x1b[16t".as_slice(),
        b"\x1b[s".as_slice(),
        b"\x1b[u".as_slice(),
        b"\x1b7".as_slice(),
        b"\x1b8".as_slice(),
        b"?1049".as_slice(),
    ] {
        assert!(
            !bytes
                .windows(forbidden.len())
                .any(|window| window == forbidden)
        );
    }

    let mut offset = 0;
    while let Some(relative) = bytes[offset..]
        .windows(2)
        .position(|window| window == [ESC, b'['])
    {
        let start = offset + relative;
        let final_byte = bytes[start + 2..]
            .iter()
            .position(|byte| (0x40..=0x7e).contains(byte))
            .map(|index| bytes[start + 2 + index]);
        let Some(final_byte) = final_byte else {
            break;
        };
        assert!(!matches!(final_byte, b'A'..=b'H' | b'f'));
        offset = start + 3;
    }
}

#[test]
fn serialize_rejects_empty_payload_and_invalid_geometry() {
    let id = 1;
    assert_eq!(
        serialize(b"", id, 1, 1, false),
        Err(SerializeError::EmptyPayload)
    );
    for (cols, rows) in [(0, 1), (1, 0), (257, 1), (1, 257)] {
        assert_eq!(
            serialize(b"x", id, cols, rows, false),
            Err(SerializeError::InvalidGeometry)
        );
    }
}

#[test]
fn base64_matches_rfc4648_vectors_and_round_trips() {
    let vectors: &[(&[u8], &str)] = &[
        (&b""[..], ""),
        (&b"f"[..], "Zg=="),
        (&b"fo"[..], "Zm8="),
        (&b"foo"[..], "Zm9v"),
        (&b"foob"[..], "Zm9vYg=="),
        (&b"fooba"[..], "Zm9vYmE="),
        (&b"foobar"[..], "Zm9vYmFy"),
    ];
    for (input, expected) in vectors {
        let encoded = base64(input).unwrap();
        assert_eq!(encoded, expected.as_bytes());
        assert_eq!(decode_base64(&encoded), *input);
    }
}

#[test]
fn direct_apc_stream_has_exact_framing_and_bounded_chunks() {
    let id = 0x0102_0304;
    for length in [1, 3071, 3072, 3073, 4095, 4096, 4097, 8193] {
        let original: Vec<u8> = (0..length).map(|byte| (byte % 251) as u8).collect();
        let serialized = serialize(&original, id, 17, 3, false).unwrap();
        let commands = parse_apc_stream(&serialized.transfer);
        assert!(!commands.is_empty());

        let first_fields = control_fields(&commands[0].control);
        assert_eq!(first_fields.len(), 10);
        assert_eq!(first_fields[0], b"a=T");
        assert_eq!(first_fields[1], b"t=d");
        assert_eq!(first_fields[2], b"f=100");
        assert_eq!(first_fields[3], b"U=1");
        assert_eq!(first_fields[4], format!("i={}", id).as_bytes());
        assert_eq!(first_fields[5], b"c=17");
        assert_eq!(first_fields[6], b"r=3");
        assert_eq!(first_fields[7], b"q=2");
        assert_eq!(first_fields[8], b"N=1");
        assert_eq!(
            first_fields[9],
            format!("m={}", usize::from(commands.len() > 1)).as_bytes()
        );

        let mut decoded = Vec::new();
        for (index, command) in commands.iter().enumerate() {
            assert!(command.payload.len() <= MAX_CHUNK);
            if index + 1 < commands.len() {
                assert_eq!(command.payload.len() % 4, 0);
            }
            let fields = control_fields(&command.control);
            if index == 0 {
                assert_eq!(fields, first_fields);
            } else {
                assert_eq!(
                    fields,
                    vec![
                        format!("m={}", usize::from(index + 1 < commands.len())).as_bytes(),
                        b"q=2",
                    ]
                );
            }
            assert_eq!(
                fields
                    .iter()
                    .filter(|field| field.starts_with(b"q="))
                    .count(),
                1
            );
            assert_eq!(
                fields
                    .iter()
                    .filter(|field| field.starts_with(b"m="))
                    .count(),
                1
            );
            decoded.extend(decode_base64(&command.payload));
        }
        assert_eq!(decoded, original);

        for key in ["a=", "t=", "f=", "U=", "i=", "c=", "r=", "N="] {
            let count = commands
                .iter()
                .flat_map(|command| control_fields(&command.control))
                .filter(|field| field.starts_with(key.as_bytes()))
                .count();
            assert_eq!(count, 1, "metadata {key:?}");
        }
        assert!(control_fields(&commands.last().unwrap().control).contains(&b"m=0".as_slice()));

        let rebuilt: Vec<u8> = commands.iter().flat_map(frame_apc).collect();
        assert_eq!(rebuilt, serialized.transfer);
    }
}

#[test]
fn tmux_wraps_single_and_multiple_apcs_without_extra_escapes() {
    let id = 0x0102_0304;
    let single_direct = serialize(b"x", id, 1, 1, false).unwrap();
    let single_tmux = serialize(b"x", id, 1, 1, true).unwrap();
    let mut expected = b"\x1bPtmux;".to_vec();
    for byte in &single_direct.transfer {
        expected.push(*byte);
        if *byte == ESC {
            expected.push(ESC);
        }
    }
    expected.extend(b"\x1b\\");
    assert_eq!(single_tmux.transfer, expected);

    let original: Vec<u8> = (0..8193).map(|byte| (byte % 251) as u8).collect();
    let direct = serialize(&original, id, 17, 3, false).unwrap();
    let tmux = serialize(&original, id, 17, 3, true).unwrap();
    let direct_commands = parse_apc_stream(&direct.transfer);
    let wrapped_commands = parse_tmux_stream(&tmux.transfer);
    assert_eq!(wrapped_commands.len(), direct_commands.len());
    for (wrapped, direct) in wrapped_commands.iter().zip(direct_commands.iter()) {
        assert_eq!(wrapped, &frame_apc(direct));
    }
}

#[test]
fn placeholders_use_ordered_diacritics_ids_and_exact_rows() {
    for (index, expected) in [
        (0, 0x0305),
        (1, 0x030D),
        (31, 0x0484),
        (63, 0x0658),
        (127, 0x082C),
        (191, 0x1DE1),
        (254, 0xA8E4),
        (255, 0xA8E5),
    ] {
        assert_eq!(DIACRITICS[index] as u32, expected);
    }
    assert_eq!(DIACRITICS.len(), 256);

    let low_id = 0x0001_0203;
    let high_id = 0xff01_0203;
    let max_id = 0xffff_ffff;
    for id in [low_id, high_id, max_id] {
        let serialized = serialize(b"x", id, 3, 3, false).unwrap();
        assert_exact_placeholder_rows(&serialized, id, 3, 3);
    }
    assert!(serialize(b"x", low_id, 257, 1, false).is_err());

    let all_diacritics = serialize(b"x", high_id, 256, 256, false).unwrap();
    assert_exact_placeholder_rows(&all_diacritics, high_id, 256, 256);
}

#[test]
fn generated_image_ids_are_nonzero_and_vary() {
    let mut counter: u32 = 7;
    let ids: Vec<u32> = (0..32)
        .map(|_| {
            counter = next_counter(counter);
            image_id(counter, 0x1234_5678, 4321)
        })
        .collect();
    assert!(ids.iter().all(|id| *id != 0));
    let mut distinct = ids.clone();
    distinct.sort_unstable();
    distinct.dedup();
    assert!(distinct.len() >= 2);
    assert_eq!(next_counter(0xffff_ffff), 0x9e37_79b8);
    assert_eq!(image_id(5, 5, 0), 1);
    assert_eq!(image_id(1, 2, 4), 7);
}

#[test]
fn serialized_output_contains_no_queries_or_cursor_control() {
    for tmux in [false, true] {
        let serialized = serialize(
            b"payload",
            0xffff_ffff,
            3,
            3,
            tmux,
        )
        .unwrap();
        assert_no_forbidden_terminal_sequences(&serialized.transfer);
        for row in &serialized.placeholder_rows {
            assert_no_forbidden_terminal_sequences(row.as_bytes());
        }
    }
}

#[test]
fn transfer_of_one_byte_is_exact() {
    let serialized = serialize(b"x", 66, 2, 1, false).unwrap();
    assert_eq!(
        serialized.transfer,
        b"\x1b_Ga=T,t=d,f=100,U=1,i=66,c=2,r=1,q=2,N=1,m=0;eA==\x1b\\"
    );
    let row = "\x1b[38;2;0;0;66m\u{10eeee}\u{305}\u{305}\u{305}\u{10eeee}\u{305}\u{30d}\u{305}\x1b[0m\n";
    assert_eq!(serialized.placeholder_rows, vec![row.to_string()]);
}
