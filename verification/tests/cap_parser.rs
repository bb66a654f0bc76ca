use ratatui_image::picker::cap_parser::{Parser, QueryStdioOptions, Response};
use ratatui_image::picker::query::shm_probe_name;
use ratatui_image::picker::ProtocolType;

fn parse(response: &str) -> Vec<Response> {
    let mut parser = Parser::new();
    let mut caps: Vec<Response> = vec![];
    for ch in response.chars() {
        let mut more_caps = parser.push(ch);
        caps.append(&mut more_caps)
    }
    caps
}

#[test]
fn test_parse_all() {
    let caps =
        parse("\x1b_Gi=31;OK\x1b\\\x1b[?64;4c\x1b[6;7;14t\x1b[6;6R\x1b[7;7R\x1b[6;6R\x1b[0n");
    assert_eq!(
        caps,
        vec![
            Response::Kitty,
            Response::Sixel,
            Response::CellSize(Some((14, 7))),
            Response::CursorPositionReport(6, 6),
            Response::CursorPositionReport(7, 7),
            Response::CursorPositionReport(6, 6),
            Response::Status,
        ],
    );
}

#[test]
fn test_parse_only_garbage() {
    let caps = parse("\x1bhonkey\x1btonkey\x1b[42\x1b\\");
    assert_eq!(caps, vec![]);
}

#[test]
fn test_parse_preceding_garbage() {
    let caps = parse("\x1bgarbage...\x1b[?64;5c\x1b[0n");
    assert_eq!(caps, vec![Response::Status]);
}

#[test]
fn test_parse_inner_garbage() {
    let caps = parse("\x1b[6;7;14t\x1bgarbage...\x1b[?64;5c\x1b[0n");
    assert_eq!(
        caps,
        vec![Response::CellSize(Some((14, 7))), Response::Status]
    );
}

/// The compression probe is off unless it is asked for.
#[test]
fn test_query_omits_compression_probe_by_default() {
    let q = Parser::query(false, QueryStdioOptions::default(), 4711);
    assert!(
        !q.contains("_Gi=32"),
        "the compression probe must be opt-in: {q}"
    );
}

/// The payload of the compression probe has to be a zlib stream of the one pixel that `s=1,v=1`
/// and `f=24` promise.
#[test]
fn test_query_carries_a_compressed_probe_when_opted_in() {
    let q = Parser::query(
        false,
        QueryStdioOptions {
            kitty_compression: true,
            ..Default::default()
        },
        4711,
    );
    let (_, rest) = q
        .split_once("\x1b_Gi=32,s=1,v=1,a=q,t=d,f=24,o=z;")
        .expect("the compressed probe is in the query");
    let (payload, _) = rest.split_once("\x1b\\").expect("the probe is terminated");

    let bytes = base64_simd::STANDARD
        .decode_to_vec(payload)
        .expect("the probe payload is base64");
    let mut raw = Vec::new();
    std::io::copy(&mut flate2::read::ZlibDecoder::new(&bytes[..]), &mut raw)
        .expect("the probe payload is one zlib stream");
    assert_eq!(raw, vec![0, 0, 0], "one RGB pixel, as f=24 s=1 v=1 says");
}

#[test]
fn test_parse_compression_response() {
    assert_eq!(
        parse("\x1b_Gi=31;OK\x1b\\\x1b_Gi=32;OK\x1b\\\x1b[0n"),
        vec![
            Response::Kitty,
            Response::KittyCompression,
            Response::Status
        ],
    );
}

/// A terminal without compression answers the second probe with an error code.
#[test]
fn test_parse_compression_refused() {
    assert_eq!(
        parse("\x1b_Gi=31;OK\x1b\\\x1b_Gi=32;EINVAL:bad\x1b\\\x1b[0n"),
        vec![Response::Kitty, Response::Status],
    );
}

/// The shared memory probe is off unless it is asked for.
#[test]
fn test_query_omits_shared_memory_probe_by_default() {
    let q = Parser::query(false, QueryStdioOptions::default(), 4711);
    assert!(
        !q.contains("_Gi=33"),
        "the shared memory probe must be opt-in: {q}"
    );
}

#[test]
fn test_parse_shared_memory_response() {
    assert_eq!(
        parse("\x1b_Gi=31;OK\x1b\\\x1b_Gi=33;OK\x1b\\\x1b[0n"),
        vec![
            Response::Kitty,
            Response::KittySharedMemory,
            Response::Status
        ],
    );
}

/// A terminal that cannot reach the object answers with an error.
#[test]
fn test_parse_shared_memory_refused() {
    assert_eq!(
        parse("\x1b_Gi=31;OK\x1b\\\x1b_Gi=33;EBADF:no such file\x1b\\\x1b[0n"),
        vec![Response::Kitty, Response::Status],
    );
}

/// The payload of the shared memory probe is the name of an object.
#[test]
fn test_query_names_a_shared_memory_object_when_opted_in() {
    let pid: u32 = 4711;
    let q = Parser::query(
        false,
        QueryStdioOptions {
            kitty_shared_memory_probe: true,
            ..Default::default()
        },
        pid,
    );
    let (_, rest) = q
        .split_once("\x1b_Gi=33,s=1,v=1,a=q,t=s,f=32;")
        .expect("the shared memory probe is in the query");
    let (payload, _) = rest.split_once("\x1b\\").expect("the probe is terminated");

    let name = base64_simd::STANDARD
        .decode_to_vec(payload)
        .expect("the probe payload is base64");
    let name = String::from_utf8(name).expect("the probe payload is an object name");
    assert_eq!(name, shm_probe_name(pid), "the object we created");
    assert!(
        name.starts_with('/') && name.ends_with("-probe"),
        "a portable name that cannot collide with an image id: {name}"
    );
    assert!(
        name.contains(&pid.to_string()),
        "the name is this process's: {name}"
    );
    let widest = name.len() - pid.to_string().len() + 10;
    assert!(widest <= 31, "`{name}` is {widest} bytes at the widest pid");
}

#[test]
fn names_of_probe_objects() {
    assert_eq!(shm_probe_name(0), "/rtui-0-probe");
    assert_eq!(shm_probe_name(10), "/rtui-10-probe");
    assert_eq!(shm_probe_name(4711), "/rtui-4711-probe");
    assert_eq!(shm_probe_name(u32::MAX), "/rtui-4294967295-probe");
    assert_eq!(shm_probe_name(u32::MAX).len(), 22);
    assert_ne!(shm_probe_name(1), shm_probe_name(11));
}

#[test]
fn wrapping_for_tmux() {
    assert_eq!(Parser::tmux_start_escape_end(false), ("", "\x1b", ""));
    assert_eq!(
        Parser::tmux_start_escape_end(true),
        ("\x1bPtmux;", "\x1b\x1b", "\x1b\\")
    );
}

#[test]
fn default_query() {
    assert_eq!(
        Parser::query(false, QueryStdioOptions::default(), 4711),
        "\x1b_Gi=31,s=1,v=1,a=q,t=d,f=24;AAAA\x1b\\\x1b[c\x1b[16t\x1b[5n"
    );
    assert_eq!(
        Parser::query(true, QueryStdioOptions::default(), 4711),
        "\x1bPtmux;\x1b\x1b_Gi=31,s=1,v=1,a=q,t=d,f=24;AAAA\x1b\x1b\\\x1b\x1b[c\x1b\x1b[16t\x1b\x1b[5n\x1b\\"
    );
}

fn everything() -> QueryStdioOptions {
    QueryStdioOptions {
        text_sizing_protocol: true,
        terminal_background_color_osc: true,
        kitty_compression: true,
        kitty_shared_memory_object: Some(4711),
        kitty_shared_memory_probe: true,
        ..Default::default()
    }
}

#[test]
fn query_for_everything() {
    assert_eq!(
        Parser::query(false, everything(), 4711),
        "\x1b_Gi=31,s=1,v=1,a=q,t=d,f=24;AAAA\x1b\\\
         \x1b_Gi=32,s=1,v=1,a=q,t=d,f=24,o=z;eJxjYGAAAAADAAE=\x1b\\\
         \x1b_Gi=33,s=1,v=1,a=q,t=s,f=32;L3J0dWktNDcxMS1wcm9iZQ==\x1b\\\
         \x1b[c\x1b[16t\x1b]11;?\x07\
         \x1b[6n\x1b]66;w=2; \x07\x1b[6n\x1b]66;s=2; \x07\x1b[6n\x1b[5n"
    );
}

#[test]
fn tmux_doubles_every_escape() {
    let plain = Parser::query(false, everything(), 7);
    let wrapped = Parser::query(true, everything(), 7);
    assert_eq!(
        wrapped,
        format!("\x1bPtmux;{}\x1b\\", plain.replace('\x1b', "\x1b\x1b"))
    );
}

/// The numbers of bytes that are left over in base64: none, one and two.
#[test]
fn payloads_of_all_lengths() {
    for pid in [1u32, 12, 123, 1234] {
        let q = Parser::query(
            false,
            QueryStdioOptions {
                kitty_shared_memory_probe: true,
                ..Default::default()
            },
            pid,
        );
        let payload = base64_simd::STANDARD.encode_to_string(shm_probe_name(pid));
        assert!(q.contains(&format!("f=32;{payload}\x1b\\")));
    }
}

#[test]
fn blacklisted_protocols_are_not_asked_for() {
    let q = Parser::query(
        false,
        QueryStdioOptions {
            blacklist_protocols: vec![ProtocolType::Kitty, ProtocolType::Sixel],
            ..everything()
        },
        4711,
    );
    assert_eq!(
        q,
        "\x1b[16t\x1b]11;?\x07\x1b[6n\x1b]66;w=2; \x07\x1b[6n\x1b]66;s=2; \x07\x1b[6n\x1b[5n"
    );
    let q = Parser::query(
        false,
        QueryStdioOptions {
            blacklist_protocols: vec![ProtocolType::Halfblocks, ProtocolType::Sixel],
            ..Default::default()
        },
        4711,
    );
    assert_eq!(q, "\x1b_Gi=31,s=1,v=1,a=q,t=d,f=24;AAAA\x1b\\\x1b[16t\x1b[5n");
}

#[test]
fn default_options() {
    let options = QueryStdioOptions::default();
    assert_eq!(options.timeout, std::time::Duration::from_millis(2000));
    assert_eq!(options.timeout.as_secs(), 2);
    assert!(options.blacklist_protocols.is_empty());
    assert!(!options.text_sizing_protocol);
    assert!(!options.terminal_background_color_osc);
    assert!(!options.kitty_compression);
    assert!(!options.kitty_shared_memory_probe);
    assert_eq!(options.kitty_shared_memory_object, None);
}

#[test]
fn device_attributes() {
    assert_eq!(
        parse("\x1b[?62;4;22;28c"),
        vec![Response::Sixel, Response::RectangularOps]
    );
    assert_eq!(parse("\x1b[?4c"), vec![Response::Sixel]);
    assert_eq!(parse("\x1b[?c"), vec![]);
    assert_eq!(parse("\x1b[?44;284c"), vec![]);
    // Without the question mark it is no report of attributes.
    assert_eq!(parse("\x1b[4c"), vec![]);
}

#[test]
fn cell_sizes() {
    assert_eq!(parse("\x1b[6;20;10t"), vec![Response::CellSize(Some((10, 20)))]);
    assert_eq!(parse("\x1b[6;0;10t"), vec![Response::CellSize(None)]);
    assert_eq!(parse("\x1b[6;20;0t"), vec![Response::CellSize(None)]);
    assert_eq!(parse("\x1b[6;20t"), vec![Response::CellSize(None)]);
    assert_eq!(parse("\x1b[6;20;10;1t"), vec![Response::CellSize(None)]);
    assert_eq!(parse("\x1b[6;;10t"), vec![Response::CellSize(None)]);
    assert_eq!(parse("\x1b[6;x;10t"), vec![Response::CellSize(None)]);
    assert_eq!(parse("\x1b[6;-1;10t"), vec![Response::CellSize(None)]);
    assert_eq!(parse("\x1b[6;+20;10t"), vec![Response::CellSize(Some((10, 20)))]);
    assert_eq!(parse("\x1b[6;++20;10t"), vec![Response::CellSize(None)]);
    assert_eq!(parse("\x1b[6;+;10t"), vec![Response::CellSize(None)]);
    assert_eq!(parse("\x1b[6;65535;1t"), vec![Response::CellSize(Some((1, 65535)))]);
    assert_eq!(parse("\x1b[6;65536;1t"), vec![Response::CellSize(None)]);
    assert_eq!(parse("\x1b[6;0000000020;10t"), vec![Response::CellSize(Some((10, 20)))]);
}

#[test]
fn cursor_positions() {
    assert_eq!(parse("\x1b[3;7R"), vec![Response::CursorPositionReport(7, 3)]);
    assert_eq!(parse("\x1b[0;0R"), vec![Response::CursorPositionReport(0, 0)]);
    assert_eq!(parse("\x1b[3R"), vec![]);
    assert_eq!(parse("\x1b[3;7;9R"), vec![]);
    assert_eq!(parse("\x1b[3;99999R"), vec![]);
}

#[test]
fn background_colors() {
    assert_eq!(
        parse("\x1b]11;rgb:1e1e/2d2d/ffff\x07"),
        vec![Response::Background(0x1e, 0x2d, 0xff)]
    );
    assert_eq!(
        parse("\x1b]11;rgb:1E1E/2D2D/FFFF\x1b\\"),
        vec![Response::Background(0x1e, 0x2d, 0xff)]
    );
    // Two digits are a number of 16 bits too, with nothing in the upper eight.
    assert_eq!(parse("\x1b]11;rgb:1e/2d/ff\x07"), vec![Response::Background(0, 0, 0)]);
    assert_eq!(parse("\x1b]11;rgb:1e1e/2d2d\x07"), vec![]);
    assert_eq!(parse("\x1b]11;rgb:1e1e/2d2d/fffff\x07"), vec![]);
    assert_eq!(parse("\x1b]11;rgb:1e1e/2d2d/gggg\x07"), vec![]);
    assert_eq!(parse("\x1b]11;1e1e/2d2d/ffff\x07"), vec![]);
    // What stands behind a second mark is not looked at.
    assert_eq!(
        parse("\x1b]11;rgb:1e1e/2d2d/ffffrgb:0/0/0\x07"),
        vec![Response::Background(0x1e, 0x2d, 0xff)]
    );
    assert_eq!(
        parse("\x1b]11;rgb:\\1e1e/2d2d/ffff\x1b\\"),
        vec![Response::Background(0x1e, 0x2d, 0xff)]
    );
}

/// An escape drops a control sequence, and not what a kitty reply is made of.
#[test]
fn escapes_inside_of_replies() {
    assert_eq!(parse("\x1b[6;7\x1b[0n"), vec![Response::Status]);
    assert_eq!(parse("\x1b[\x1b[0n"), vec![Response::Status]);
    assert_eq!(
        parse("\x1b_Gi=31;OK\x1b\x1b\\\x1b[0n"),
        vec![Response::Status]
    );
    assert_eq!(parse("_Gi=31;OK\x1b\\"), vec![Response::Kitty]);
    assert_eq!(parse("\x1b_Gi=34;OK\x1b\\\x1b[0n"), vec![Response::Status]);
}

/// The parser takes characters of any width.
#[test]
fn characters_beyond_ascii() {
    assert_eq!(parse("\x1bäöü€\x1b[0n"), vec![Response::Status]);
    assert_eq!(parse("\x1b[€;7;14t"), vec![Response::CellSize(Some((14, 7)))]);
    assert_eq!(parse("\x1b[?€;4c"), vec![Response::Sixel]);
}

/// A parser is usable again after each reply.
#[test]
fn a_default_parser_is_a_new_one() {
    let mut parser = Parser::default();
    let mut seen: Vec<Response> = vec![];
    for ch in "\x1b[0n\x1b[0n".chars() {
        seen.append(&mut parser.push(ch));
    }
    assert_eq!(seen, vec![Response::Status, Response::Status]);
}
