use ratatui_image::errors::Errors;
use ratatui_image::picker::cap_parser::{Parser, QueryStdioOptions, Response};
use ratatui_image::picker::environment::{
    detect_tmux_and_outer_protocol_from_env, iterm2_from_env, options_for_env, Environment,
};
use ratatui_image::picker::interpret::interpret_parser_responses;
use ratatui_image::picker::session::{after_wait, AfterWait, QueryResult, Session};
use ratatui_image::picker::{
    fallback_picker, Capability, Picker, ProtocolSetup, ProtocolType, ResizeTo,
};
use ratatui_image::types::font_size_fallback;
use ratatui_image::{FontSize, Rgba, Size, Winsize};

#[test]
fn test_cycle_protocol() {
    let mut proto = ProtocolType::Halfblocks;
    proto = proto.next();
    assert_eq!(proto, ProtocolType::Sixel);
    proto = proto.next();
    assert_eq!(proto, ProtocolType::Kitty);
    proto = proto.next();
    assert_eq!(proto, ProtocolType::Iterm2);
    proto = proto.next();
    assert_eq!(proto, ProtocolType::Halfblocks);
}

/// A terminal that stays silent is given up, and a picker comes of it all the same.
#[test]
fn test_from_query_stdio_no_hang() {
    let reply = match after_wait(None) {
        AfterWait::Return(reply) => reply,
        AfterWait::WaitAgain => unreachable!(),
    };
    let picker = Picker::from_query_stdio(&Environment::default(), reply, None).unwrap();
    assert_eq!(picker.protocol_type(), ProtocolType::Halfblocks);
}

#[test]
fn test_fallback_picker() {
    // The terminal did not answer, but the size of a cell is known, and a hint at iTerm2.
    let picker = fallback_picker(
        false,
        Some(ProtocolType::Iterm2),
        Some(FontSize::new(8, 16)),
    );
    assert_eq!(picker.protocol_type(), ProtocolType::Iterm2);
    assert_eq!(
        (picker.font_size().width, picker.font_size().height),
        (8, 16)
    );

    // Without the size of a cell no other protocol can be shown.
    let picker = fallback_picker(false, Some(ProtocolType::Iterm2), None);
    assert_eq!(picker.protocol_type(), ProtocolType::Halfblocks);

    // Without a hint it stays with half blocks.
    let picker = fallback_picker(false, None, Some(FontSize::new(8, 16)));
    assert_eq!(picker.protocol_type(), ProtocolType::Halfblocks);
}

#[test]
fn test_interpret_parser_responses_text_sizing_protocol() {
    let (_, _, caps) = interpret_parser_responses(
        vec![
            // What kitty answers.
            Response::CursorPositionReport(1, 1),
            Response::CursorPositionReport(3, 1),
            Response::CursorPositionReport(5, 1),
        ],
        None,
    )
    .unwrap();
    assert!(caps.contains(&Capability::TextSizingProtocol));
}

#[test]
fn test_interpret_parser_responses_text_sizing_protocol_incomplete() {
    let (_, _, caps) = interpret_parser_responses(
        vec![
            // What foot answers, which moves by two columns for the width only.
            Response::CursorPositionReport(1, 22),
            Response::CursorPositionReport(3, 22),
            Response::CursorPositionReport(4, 22),
        ],
        None,
    )
    .unwrap();
    assert!(!caps.contains(&Capability::TextSizingProtocol));
}

#[test]
fn interpreting_nothing() {
    assert_eq!(interpret_parser_responses(vec![], None), Err(Errors::NoCap));
    assert_eq!(
        interpret_parser_responses(vec![], Some(FontSize::new(8, 16))),
        Err(Errors::NoCap)
    );
}

#[test]
fn interpreting_every_response() {
    let outcome = interpret_parser_responses(
        vec![
            Response::Sixel,
            Response::Kitty,
            Response::RectangularOps,
            Response::KittyCompression,
            Response::KittySharedMemory,
            Response::CellSize(Some((9, 18))),
            Response::CursorPositionReport(1, 1),
            Response::Background(1, 2, 3),
            Response::CellSize(None),
            Response::Status,
        ],
        Some(FontSize::new(1, 1)),
    );
    assert_eq!(
        outcome,
        Ok((
            Some(ProtocolType::Kitty),
            Some(FontSize::new(9, 18)),
            vec![
                Capability::Sixel,
                Capability::Kitty,
                Capability::RectangularOps,
                Capability::KittyCompression,
                Capability::KittySharedMemory,
                Capability::CellSize(Some((9, 18))),
                Capability::Background(1, 2, 3),
                Capability::CellSize(None),
            ]
        ))
    );
}

#[test]
fn interpreting_protocols_and_sizes() {
    let kitty = Some(ProtocolType::Kitty);
    let sixel = Some(ProtocolType::Sixel);
    let proto = |responses: Vec<Response>| interpret_parser_responses(responses, None).unwrap().0;
    assert_eq!(proto(vec![Response::Kitty, Response::Sixel]), kitty);
    assert_eq!(proto(vec![Response::Sixel, Response::Kitty]), kitty);
    assert_eq!(proto(vec![Response::Sixel]), sixel);
    assert_eq!(proto(vec![Response::RectangularOps]), None);

    let size = |responses: Vec<Response>| {
        interpret_parser_responses(responses, Some(FontSize::new(7, 14)))
            .unwrap()
            .1
    };
    assert_eq!(size(vec![Response::Kitty]), Some(FontSize::new(7, 14)));
    assert_eq!(size(vec![Response::CellSize(None)]), Some(FontSize::new(7, 14)));
    assert_eq!(
        size(vec![
            Response::CellSize(Some((8, 16))),
            Response::CellSize(Some((9, 18)))
        ]),
        Some(FontSize::new(9, 18))
    );
}

#[test]
fn text_sizing_takes_exactly_three_reports() {
    let sizing = |columns: &[u16]| {
        let responses = columns
            .iter()
            .map(|x| Response::CursorPositionReport(*x, 1))
            .collect();
        interpret_parser_responses(responses, None)
            .unwrap()
            .2
            .contains(&Capability::TextSizingProtocol)
    };
    assert!(sizing(&[1, 3, 5]));
    assert!(!sizing(&[1, 3]));
    assert!(!sizing(&[1, 3, 5, 7]));
    assert!(!sizing(&[1, 2, 4]));
    assert!(!sizing(&[65534, 65535, 1]));
    assert!(sizing(&[65531, 65533, 65535]));
}

fn var(value: &str) -> Option<String> {
    Some(value.to_string())
}

#[test]
fn tmux_in_the_environment() {
    let detect = |env: Environment| detect_tmux_and_outer_protocol_from_env(&env);
    assert_eq!(detect(Environment::default()), (false, None));
    assert_eq!(
        detect(Environment {
            term: var("tmux-256color"),
            ..Default::default()
        }),
        (true, None)
    );
    assert_eq!(
        detect(Environment {
            term: var("xterm-tmux"),
            term_program: var("tmux 3"),
            ..Default::default()
        }),
        (false, None)
    );
    assert_eq!(
        detect(Environment {
            term_program: var("tmux"),
            iterm_session_id: var("w0t0p0"),
            ..Default::default()
        }),
        (true, Some(ProtocolType::Iterm2))
    );
    assert_eq!(
        detect(Environment {
            term: var("tmux"),
            iterm_session_id: var(""),
            wezterm_executable: var("/usr/bin/wezterm"),
            ..Default::default()
        }),
        (true, Some(ProtocolType::Iterm2))
    );
    assert_eq!(
        detect(Environment {
            term: var("tmux"),
            wezterm_executable: var(""),
            ..Default::default()
        }),
        (true, None)
    );
    assert_eq!(
        detect(Environment {
            term: var("xterm"),
            iterm_session_id: var("w0t0p0"),
            ..Default::default()
        }),
        (false, None)
    );
}

#[test]
fn iterm2_in_the_environment() {
    for program in [
        "iTerm.app",
        "WezTerm",
        "mintty",
        "vscode",
        "Tabby",
        "Hyper",
        "rio",
        "Bobcat",
        "WarpTerminal",
        "some-rio-thing",
    ] {
        let env = Environment {
            term_program: var(program),
            ..Default::default()
        };
        assert_eq!(iterm2_from_env(&env), Some(ProtocolType::Iterm2), "{program}");
    }
    for program in ["", "kitty", "iterm", "ghostty", "ri"] {
        let env = Environment {
            term_program: var(program),
            ..Default::default()
        };
        assert_eq!(iterm2_from_env(&env), None, "{program}");
    }
    let env = Environment {
        term_program: var("kitty"),
        lc_terminal: var("iTerm2"),
        ..Default::default()
    };
    assert_eq!(iterm2_from_env(&env), Some(ProtocolType::Iterm2));
    let env = Environment {
        lc_terminal: var("WezTerm"),
        ..Default::default()
    };
    assert_eq!(iterm2_from_env(&env), None);
    assert_eq!(iterm2_from_env(&Environment::default()), None);
}

#[test]
fn terminals_that_are_asked_for_less() {
    let mine = || QueryStdioOptions {
        blacklist_protocols: vec![ProtocolType::Iterm2],
        kitty_compression: true,
        ..Default::default()
    };
    let kept = options_for_env(&Environment::default(), mine());
    assert_eq!(kept.blacklist_protocols, vec![ProtocolType::Iterm2]);
    for env in [
        Environment {
            wezterm_executable: var("/usr/bin/wezterm"),
            ..Default::default()
        },
        Environment {
            konsole_version: var("230805"),
            ..Default::default()
        },
    ] {
        let options = options_for_env(&env, mine());
        assert_eq!(
            options.blacklist_protocols,
            vec![ProtocolType::Kitty, ProtocolType::Sixel]
        );
        assert!(options.kitty_compression);
    }
    let unset = Environment {
        konsole_version: var(""),
        ..Default::default()
    };
    assert_eq!(
        options_for_env(&unset, mine()).blacklist_protocols,
        vec![ProtocolType::Iterm2]
    );
}

#[test]
fn font_sizes_from_windows() {
    let window = Winsize {
        xpixel: 805,
        ypixel: 600,
        cols: 100,
        rows: 30,
    };
    assert_eq!(
        font_size_fallback(Some(window)),
        Some(FontSize::new(8, 20))
    );
    assert_eq!(font_size_fallback(None), None);
    assert_eq!(font_size_fallback(Some(Winsize { xpixel: 0, ..window })), None);
    assert_eq!(font_size_fallback(Some(Winsize { ypixel: 0, ..window })), None);
    assert_eq!(font_size_fallback(Some(Winsize { cols: 0, ..window })), None);
    assert_eq!(font_size_fallback(Some(Winsize { rows: 0, ..window })), None);
    assert_eq!(FontSize::from((3, 4)), FontSize::new(3, 4));
}

#[test]
fn the_terminal_goes_before_the_environment() {
    let env = Environment {
        term_program: var("iTerm.app"),
        ..Default::default()
    };
    let size = Some(FontSize::new(8, 16));
    let pick = |reply| Picker::from_query_stdio(&env, reply, size).unwrap();
    let kitty = pick(Ok((Some(ProtocolType::Kitty), size, vec![Capability::Kitty])));
    assert_eq!(kitty.protocol_type(), ProtocolType::Kitty);
    assert_eq!(kitty.font_size(), FontSize::new(8, 16));
    assert_eq!(kitty.capabilities(), &vec![Capability::Kitty]);
    let hinted = pick(Ok((None, size, vec![])));
    assert_eq!(hinted.protocol_type(), ProtocolType::Iterm2);
    // An answer without the size of a cell is of no use.
    let unsized_reply = pick(Ok((Some(ProtocolType::Kitty), None, vec![Capability::Kitty])));
    assert_eq!(unsized_reply.protocol_type(), ProtocolType::Halfblocks);
    assert_eq!(unsized_reply.font_size(), FontSize::new(10, 20));
    assert!(unsized_reply.capabilities().is_empty());
}

#[test]
fn failures_and_silence() {
    let env = Environment {
        term: var("tmux"),
        iterm_session_id: var("w0"),
        ..Default::default()
    };
    for err in [Errors::NoCap, Errors::NoStdinResponse, Errors::NoFontSize] {
        let picker =
            Picker::from_query_stdio(&env, Err(err), Some(FontSize::new(8, 16))).unwrap();
        assert_eq!(picker.protocol_type(), ProtocolType::Iterm2);
        assert_eq!(picker.font_size(), FontSize::new(8, 16));
    }
    let failed = Picker::from_query_stdio(&env, Err(Errors::Io("gone".to_string())), None);
    assert!(matches!(failed, Err(Errors::Io(reason)) if reason == "gone"));
}

#[test]
fn shared_memory_is_used_where_it_was_reported() {
    let env = Environment::default();
    let options = QueryStdioOptions {
        kitty_shared_memory_object: Some(99),
        kitty_shared_memory_probe: true,
        ..Default::default()
    };
    let size = Some(FontSize::new(8, 16));
    let shm = |caps: Vec<Capability>| {
        let reply = Ok((Some(ProtocolType::Kitty), size, caps));
        Picker::from_query_stdio_with_options(&env, &options, reply, None)
            .unwrap()
            .setup(7)
    };
    assert_eq!(
        shm(vec![Capability::Kitty, Capability::KittySharedMemory]),
        ProtocolSetup::Kitty {
            unique_id: 7,
            is_tmux: false,
            compression: false,
            shm: Some(99)
        }
    );
    assert_eq!(
        shm(vec![Capability::Kitty, Capability::KittyCompression]),
        ProtocolSetup::Kitty {
            unique_id: 7,
            is_tmux: false,
            compression: true,
            shm: None
        }
    );
}

#[test]
fn pickers_without_a_query() {
    let env = Environment {
        term: var("tmux"),
        term_program: var("WezTerm"),
        ..Default::default()
    };
    let picker = Picker::halfblocks(&env);
    assert_eq!(picker.protocol_type(), ProtocolType::Halfblocks);
    assert_eq!(picker.font_size(), FontSize::new(10, 20));
    let mut picker = Picker::from_fontsize(&env, FontSize::new(6, 12));
    assert_eq!(picker.protocol_type(), ProtocolType::Iterm2);
    assert_eq!(picker.font_size(), FontSize::new(6, 12));
    assert_eq!(picker.setup(1), ProtocolSetup::ITerm2 { is_tmux: true });
    picker.set_protocol_type(ProtocolType::Sixel);
    assert_eq!(picker.protocol_type(), ProtocolType::Sixel);
    assert_eq!(picker.setup(1), ProtocolSetup::Sixel { is_tmux: true });
}

#[test]
fn new_protocols() {
    let mut picker = Picker::from_fontsize(&Environment::default(), FontSize::new(6, 12));
    let color = Rgba { r: 1, g: 2, b: 3, a: 4 };
    picker.set_background_color(Some([1u8, 2, 3, 4]));
    let desired = Size::new(20, 10);
    let fitting = picker.new_protocol(desired, None);
    assert_eq!(fitting.resize, None);
    assert_eq!(fitting.area, desired);
    assert_eq!(fitting.setup, ProtocolSetup::Halfblocks);
    let area = Size::new(10, 5);
    let resized = picker.new_protocol(desired, Some(area));
    assert_eq!(resized.area, area);
    assert_eq!(
        resized.resize,
        Some(ResizeTo {
            area,
            font_size: FontSize::new(6, 12),
            background_color: Some(color)
        })
    );
    picker.set_background_color(Some(Rgba { a: 9, ..color }));
    assert_eq!(
        picker.new_resize_protocol().background_color,
        Some(Rgba { a: 9, ..color })
    );
    picker.set_background_color::<Rgba>(None);
    assert_eq!(picker.new_resize_protocol().background_color, None);
    assert_eq!(picker.new_protocol_raw(), ProtocolSetup::Halfblocks);
}

/// Kitty knows each image by a number of its own.
#[test]
fn kitty_images_have_numbers() {
    let mut picker = Picker::halfblocks(&Environment::default());
    picker.set_protocol_type(ProtocolType::Kitty);
    let number = |setup: ProtocolSetup| match setup {
        ProtocolSetup::Kitty { unique_id, .. } => unique_id,
        _ => panic!("not kitty"),
    };
    assert_eq!(number(picker.setup(5)), 5);
    assert_eq!(number(picker.new_resize_protocol_with_id(6).setup), 6);
    let size = Size::new(1, 1);
    assert_eq!(number(picker.new_protocol_with_id(size, None, 7).setup), 7);
    let drawn: Vec<u32> = (0..8).map(|_| number(picker.new_protocol_raw())).collect();
    assert!(drawn.iter().any(|id| *id != drawn[0]));
}

#[test]
fn sessions_end_with_the_status() {
    let mut session = Session::new();
    assert!(!session.feed(b"\x1b_Gi=31;OK\x1b\\\x1b[?64;4c\x1b[6;2"));
    assert!(!session.feed(b""));
    assert!(session.feed(b"0;10t\x1b[0n\x1b[6;99;99t"));
    // What comes behind it is not looked at.
    assert!(session.feed(b"\x1b[6;98;98t"));
    assert_eq!(
        session.outcome(None),
        Ok((
            Some(ProtocolType::Kitty),
            Some(FontSize::new(10, 20)),
            vec![
                Capability::Kitty,
                Capability::Sixel,
                Capability::CellSize(Some((10, 20)))
            ]
        ))
    );
}

#[test]
fn sessions_without_any_capability() {
    let mut session = Session::new();
    assert!(session.feed(b"\x1b\xff\xfegarbage\x1b[0n"));
    assert_eq!(session.outcome(Some(FontSize::new(8, 16))), Err(Errors::NoCap));
}

#[test]
fn waiting_for_results() {
    assert!(matches!(
        after_wait(Some(QueryResult::Busy)),
        AfterWait::WaitAgain
    ));
    assert!(matches!(
        after_wait(Some(QueryResult::Failed(Errors::NoCap))),
        AfterWait::Return(Err(Errors::NoCap))
    ));
    assert!(matches!(
        after_wait(None),
        AfterWait::Return(Err(Errors::NoStdinResponse))
    ));
    match after_wait(Some(QueryResult::Done((None, None, vec![Capability::Sixel])))) {
        AfterWait::Return(Ok(outcome)) => {
            assert_eq!(outcome, (None, None, vec![Capability::Sixel]))
        }
        _ => panic!("the result is there"),
    }
}

/// From the bytes of the terminal to the picker.
#[test]
fn kitty_is_found_from_its_replies() {
    let env = Environment {
        term_program: var("iTerm.app"),
        ..Default::default()
    };
    let mut session = Session::new();
    assert!(session.feed(b"\x1b_Gi=31;OK\x1b\\\x1b[?62;4;52c\x1b[6;18;9t\x1b[0n"));
    let reply = session.outcome(Some(FontSize::new(1, 1)));
    let picker = Picker::from_query_stdio(&env, reply, Some(FontSize::new(1, 1))).unwrap();
    assert_eq!(picker.protocol_type(), ProtocolType::Kitty);
    assert_eq!(picker.font_size(), FontSize::new(9, 18));

    // The same terminal without the confirmation has sixel, and one that reports nothing is used
    // as the environment hints.
    let mut session = Session::new();
    assert!(session.feed(b"\x1b_Gi=31;ENOTSUP\x1b\\\x1b[?62;4;52c\x1b[6;18;9t\x1b[0n"));
    let picker = Picker::from_query_stdio(&env, session.outcome(None), None).unwrap();
    assert_eq!(picker.protocol_type(), ProtocolType::Sixel);
    let mut session = Session::new();
    assert!(session.feed(b"\x1b[0n"));
    let size = Some(FontSize::new(8, 16));
    let picker = Picker::from_query_stdio(&env, session.outcome(size), size).unwrap();
    assert_eq!(picker.protocol_type(), ProtocolType::Iterm2);
}

#[test]
fn wezterm_is_asked_for_no_graphics() {
    let env = Environment {
        wezterm_executable: var("/usr/bin/wezterm"),
        ..Default::default()
    };
    let options = QueryStdioOptions {
        kitty_compression: true,
        kitty_shared_memory_probe: true,
        ..Default::default()
    };
    assert_eq!(
        Parser::query(false, options_for_env(&env, options), 1),
        "\x1b[16t\x1b[5n"
    );
}
