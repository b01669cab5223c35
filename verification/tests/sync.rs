//! Devices: the registry, pairing, codes, and the streams that they follow.

use forgetty::ids::{PaneId, Uuid};
use forgetty::pty::size::PtySize;
use forgetty::session::events::SessionEvent;
use forgetty::session::manager::SessionManager;
use forgetty::sync::clock::{days_to_ymd, is_leap, iso8601_now, iso8601_text};
use forgetty::sync::endpoint::{
    AlpnTable, Route, SyncError, SyncEvent, SyncState, FORGETTY_PAIRING_ALPN,
};
use forgetty::sync::identity::{identity_key, identity_path};
use forgetty::sync::pairing::{
    admit_known, client_name, close_after, decide, greeting, own_greeting, pair_device, rejection,
    Admission, Close, LineReader, MAX_LINE,
};
use forgetty::sync::qr::{
    machine_name, png_answer, qr_to_ascii, qr_to_png, QrError, QrPayload, DEFAULT_RELAY,
};
use forgetty::sync::registry::{registry_path, DeviceEntry, DeviceRegistry, RegistryError};
use forgetty::sync::stream::{
    build_pane_list, build_scrollback_page, build_snapshot, client_wish, decode_message,
    encode_message, follow_step, message_length_ok, open_stream, stream_gate, ClientMsg, DaemonMsg,
    FollowStep, Gate, Opening, Received, Wish, WirePaneInfo, MAX_SCROLLBACK_PAGE,
};
use forgetty::vt::{Cell, CellAttributes, Color, Screen};

// ---------------------------------------------------------------------------
// Time
// ---------------------------------------------------------------------------

#[test]
fn times_are_written_in_iso_8601() {
    assert_eq!(iso8601_text(0), "1970-01-01T00:00:00Z");
    assert_eq!(iso8601_text(951_782_400), "2000-02-29T00:00:00Z");
    assert_eq!(iso8601_text(1_709_251_199), "2024-02-29T23:59:59Z");
    assert_eq!(iso8601_text(1_709_251_200), "2024-03-01T00:00:00Z");
    assert_eq!(iso8601_text(4_102_444_799), "2099-12-31T23:59:59Z");
}

#[test]
fn days_become_dates() {
    assert_eq!(days_to_ymd(0), (1970, 1, 1));
    assert_eq!(days_to_ymd(58), (1970, 2, 28));
    assert_eq!(days_to_ymd(59), (1970, 3, 1));
    assert_eq!(days_to_ymd(11_016), (2000, 2, 29));
    assert!(is_leap(2000) && is_leap(2024));
    assert!(!is_leap(1900) && !is_leap(2023));
}

#[test]
fn the_clock_runs_in_this_century() {
    let now = iso8601_now();
    assert_eq!(now.len(), 20);
    assert!(now.starts_with("20"));
    assert!(now.ends_with('Z'));
}

// ---------------------------------------------------------------------------
// The registry and pairing
// ---------------------------------------------------------------------------

fn device(id: &str, name: &str) -> DeviceEntry {
    DeviceEntry {
        device_id: id.to_string(),
        name: name.to_string(),
        paired_at: "2026-01-02T03:04:05Z".to_string(),
        last_seen: None,
    }
}

#[test]
fn a_registry_holds_devices() {
    let mut r = DeviceRegistry::from_entries(vec![device("a", "A")]);
    assert!(r.is_authorized("a"));
    assert!(!r.is_authorized("b"));
    r.add(device("b", "B"));
    assert!(r.is_authorized("b"));
    assert!(r.remove("a"));
    assert!(!r.remove("a"));
    assert!(!r.is_authorized("a"));
    assert_eq!(r.list(), &[device("b", "B")]);
    r.mark_seen("b", "2026-02-03T00:00:00Z".to_string());
    assert_eq!(r.list()[0].last_seen, Some("2026-02-03T00:00:00Z".to_string()));
    r.update_last_seen("b");
    assert_ne!(r.list()[0].last_seen, Some("2026-02-03T00:00:00Z".to_string()));
    assert_eq!(r.into_entries().len(), 1);
}

#[test]
fn what_was_stored_is_loaded() {
    let none = DeviceRegistry::load(None).unwrap();
    assert!(none.list().is_empty());
    let mut r = DeviceRegistry::from_entries(vec![device("a", "A"), device("b", "B")]);
    r.add(device("c", "C"));
    r.mark_seen("b", "2026-02-03T00:00:00Z".to_string());
    let before = r.list().to_vec();
    let loaded = DeviceRegistry::load(Some(Ok(r.into_entries()))).unwrap();
    assert_eq!(loaded.list(), &before[..]);
    let bad = RegistryError::Json("expected value".to_string());
    assert_eq!(bad.message(), "JSON parse error in registry: expected value");
    assert_eq!(
        DeviceRegistry::load(Some(Err(bad))),
        Err(RegistryError::Json("expected value".to_string()))
    );
    assert_eq!(
        RegistryError::Io("denied".to_string()).message(),
        "I/O error reading/writing registry: denied"
    );
}

#[test]
fn files_lie_in_the_data_directory() {
    let dir = || Some("/home/u/.local/share".to_string());
    assert!(registry_path(dir()).starts_with("/home/u/.local/share/forgetty/"));
    assert_eq!(identity_path(dir()), "/home/u/.local/share/forgetty/identity.key");
    assert_eq!(identity_path(None), "~/.local/share/forgetty/identity.key");
}

#[test]
fn a_key_has_32_bytes() {
    let bytes: Vec<u8> = (0..32).collect();
    let key = identity_key(&bytes).unwrap();
    assert_eq!(&key[..], &bytes[..]);
    assert_eq!(
        identity_key(&bytes[..31]),
        Err("identity.key is not 32 bytes; delete it to regenerate".to_string())
    );
}

#[test]
fn a_device_pairs_once_and_is_known_from_then_on() {
    let registry = DeviceRegistry::from_entries(Vec::new());
    let mut state = SyncState::new("node".to_string(), registry, false);
    assert_eq!(decide(&state, "dev"), Admission::Reject);
    state.enable_pairing(60);
    assert_eq!(state.take_timer(), Some(60));
    assert_eq!(state.take_timer(), None);
    assert_eq!(decide(&state, "dev"), Admission::Pair);
    pair_device(&mut state, "dev", Some("Phone".to_string()), 0);
    state.pairing_window_over();
    assert_eq!(decide(&state, "dev"), Admission::Known);
    assert_eq!(decide(&state, "other"), Admission::Reject);
    admit_known(&mut state, "dev", 1);
    let paired = DeviceEntry {
        device_id: "dev".to_string(),
        name: "Phone".to_string(),
        paired_at: "1970-01-01T00:00:00Z".to_string(),
        last_seen: None,
    };
    assert_eq!(
        state.take_events(),
        vec![
            SyncEvent::DevicePaired { entry: paired },
            SyncEvent::DeviceConnected { device_id: "dev".to_string() },
        ]
    );
    assert!(state.take_events().is_empty());
    assert_eq!(
        state.registry.list()[0].last_seen,
        Some("1970-01-01T00:00:01Z".to_string())
    );
}

#[test]
fn a_nameless_device_is_named_after_the_time() {
    let mut state =
        SyncState::new("node".to_string(), DeviceRegistry::from_entries(Vec::new()), true);
    pair_device(&mut state, "dev", None, 1234);
    assert_eq!(state.registry.list()[0].name, "device-1234");
}

#[test]
fn connections_are_closed_with_a_reason() {
    let close = |code: u8, reason: &str| Close { code, reason: reason.to_string() };
    assert_eq!(close_after(Admission::Known), close(0, "connected-ok"));
    assert_eq!(close_after(Admission::Pair), close(0, "paired-ok"));
    assert_eq!(close_after(Admission::Reject), close(1, "not-authorized"));
}

#[test]
fn names_are_escaped_as_json_strings() {
    assert_eq!(
        greeting("a\"b\\c\u{8}\u{c}\n\r\t\u{1}\u{1f}\u{7f}\u{e9}/"),
        "{\"machine\":\"a\\\"b\\\\c\\b\\f\\n\\r\\t\\u0001\\u001f\u{7f}\u{e9}/\",\"status\":\"ok\",\"v\":1}\n"
    );
}

#[test]
fn devices_are_greeted_in_json() {
    assert_eq!(own_greeting(), greeting(&QrPayload::new(String::new()).machine));
    assert_eq!(greeting("my \"pc\""), "{\"machine\":\"my \\\"pc\\\"\",\"status\":\"ok\",\"v\":1}\n");
    assert_eq!(rejection(), "{\"v\":1,\"error\":\"not_authorized\"}\n");
    assert_eq!(client_name("{\"name\":\"Pixel\"}"), Some("Pixel".to_string()));
    assert_eq!(client_name("{\"name\":7}"), None);
    assert_eq!(client_name("Pixel"), None);
}

#[test]
fn a_line_is_read_byte_by_byte() {
    let mut line = LineReader::new();
    for b in "é!".bytes() {
        assert!(!line.push(b));
    }
    assert!(line.push(b'\n'));
    assert_eq!(line.finish(), Some("é!".to_string()));
    assert_eq!(LineReader::new().finish(), None);
    let mut bad = LineReader::new();
    bad.push(0xff);
    assert_eq!(bad.finish(), None);
    let mut long = LineReader::new();
    for _ in 0..MAX_LINE {
        assert!(!long.push(b'x'));
    }
    assert!(long.push(b'x'));
}

#[test]
fn connections_go_by_their_protocol() {
    let mut table = AlpnTable::new();
    assert_eq!(table.register_alpn(b"forgetty/stream/1"), 0);
    assert_eq!(table.register_alpn(b"other"), 1);
    assert_eq!(table.register_alpn(b"forgetty/stream/1"), 0);
    assert_eq!(table.route(FORGETTY_PAIRING_ALPN.as_bytes()), Route::Pairing);
    assert_eq!(table.route(b"other"), Route::Handler(1));
    assert_eq!(table.route(b"nothing"), Route::Unknown);
}

#[test]
fn endpoint_errors_have_words() {
    assert_eq!(
        SyncError::Bind("in use".to_string()).message(),
        "Failed to bind iroh endpoint: in use"
    );
    assert_eq!(SyncError::Registry("x".to_string()).message(), "Registry error: x");
}

// ---------------------------------------------------------------------------
// Pairing codes
// ---------------------------------------------------------------------------

#[test]
fn a_payload_is_compact_json() {
    let p = QrPayload::for_machine("abc".to_string(), "box\n".to_string());
    assert_eq!(
        p.to_json(),
        format!(
            "{{\"v\":1,\"node_id\":\"abc\",\"machine\":\"box\\n\",\"relay\":\"{}\"}}",
            DEFAULT_RELAY
        )
    );
    let host = hostname::get().ok().map(|s| s.to_string_lossy().into_owned());
    assert_eq!(QrPayload::new("abc".to_string()).machine, machine_name(host));
    assert_eq!(machine_name(None), "unknown");
    assert_eq!(machine_name(Some("pc".to_string())), "pc");
}

#[test]
fn a_code_is_drawn_in_half_blocks() {
    let p = QrPayload::for_machine("abc".to_string(), "box".to_string());
    let art = qr_to_ascii(&p).unwrap();
    assert!(art.lines().count() > 10);
    assert!(art.chars().all(|c| " \n\u{2580}\u{2584}\u{2588}".contains(c)));
    assert_eq!(qr_to_ascii(&p).unwrap(), art);
}

#[test]
fn a_code_is_written_as_png() {
    let p = QrPayload::for_machine("abc".to_string(), "box".to_string());
    let png = qr_to_png(&p, 4).unwrap();
    assert_eq!(&png[..8], b"\x89PNG\r\n\x1a\n");
    // Width and height: a square of whole modules.
    let side = u32::from_be_bytes([png[16], png[17], png[18], png[19]]);
    assert_eq!(side, u32::from_be_bytes([png[20], png[21], png[22], png[23]]));
    assert_eq!(side % 4, 0);
    // Eight bits per channel, four channels.
    assert_eq!((png[24], png[25]), (8, 6));
}

#[test]
fn too_much_data_makes_no_code() {
    let p = QrPayload::for_machine("a".repeat(4000), "box".to_string());
    assert!(matches!(qr_to_ascii(&p), Err(QrError::Encode(_))));
    assert!(matches!(qr_to_png(&p, 4), Err(QrError::Encode(_))));
    assert_eq!(png_answer(Err("too long".to_string())), Err(QrError::Encode("too long".to_string())));
    // A picture without pixels cannot be written.
    assert!(matches!(png_answer(Ok((0, 0, Vec::new()))), Err(QrError::Png(_))));
}

// ---------------------------------------------------------------------------
// Streams
// ---------------------------------------------------------------------------

#[test]
fn a_message_comes_back_as_it_was_sent() {
    let wire = encode_message(b"hello");
    assert_eq!(wire, b"\0\0\0\x05hello");
    assert_eq!(decode_message(&wire), Some(b"hello".to_vec()));
    assert_eq!(decode_message(&wire[..7]), None);
    assert_eq!(decode_message(&encode_message(b"")), None);
    assert!(message_length_ok(1));
    assert!(!message_length_ok(0));
    assert!(!message_length_ok(4 * 1024 * 1024 + 1));
}

fn cell(grapheme: &str) -> Cell {
    Cell {
        grapheme: grapheme.to_string(),
        character: grapheme.chars().next().unwrap_or(' '),
        attrs: CellAttributes {
            fg: Color::Default,
            bg: Color::Default,
            bold: false,
            italic: false,
            underline: false,
            strikethrough: false,
            dim: false,
            inverse: false,
        },
    }
}

fn row(s: &str) -> Vec<Cell> {
    s.chars().map(|c| cell(&c.to_string())).collect()
}

#[test]
fn a_snapshot_holds_every_row() {
    let screen = Screen {
        lines: vec![row("ab"), row("c  "), vec![cell(""), cell("x")]],
        width: 4,
        generation: 1,
        row_generations: vec![1, 1, 1],
    };
    let id = PaneId(Uuid { value: 5 });
    let msg = build_snapshot(id, Ok((&screen, (2, 1))));
    assert_eq!(
        msg,
        DaemonMsg::FullSnapshot {
            pane_id: "00000000-0000-0000-0000-000000000005".to_string(),
            rows: 3,
            cols: 4,
            lines: vec!["ab  ".to_string(), "c   ".to_string(), "x   ".to_string()],
            cursor_row: 2,
            cursor_col: 1,
        }
    );
    assert_eq!(
        build_snapshot(id, Err("gone".to_string())),
        DaemonMsg::Error { message: "failed to read VT: gone".to_string() }
    );
}

#[test]
fn a_line_of_a_snapshot_is_as_wide_as_the_screen() {
    let screen = Screen {
        lines: vec![
            vec![cell("e\u{301}")],
            vec![cell("e\u{301}"), cell("x"), cell(" ")],
            vec![cell("a"), cell("b"), cell("e\u{301}")],
        ],
        width: 3,
        generation: 1,
        row_generations: vec![1, 1, 1],
    };
    match build_snapshot(PaneId(Uuid { value: 5 }), Ok((&screen, (0, 0)))) {
        DaemonMsg::FullSnapshot { lines, .. } => {
            assert_eq!(lines, vec!["e\u{301} ", "e\u{301}x", "abe"]);
        }
        other => panic!("expected a snapshot, got {:?}", other),
    }
}

fn page(rows: &Vec<Vec<Cell>>, from_row: i32, count: u32) -> Vec<String> {
    match build_scrollback_page(PaneId(Uuid { value: 5 }), Ok(rows), from_row, count) {
        DaemonMsg::ScrollbackPage { lines, .. } => lines,
        other => panic!("expected a page, got {:?}", other),
    }
}

#[test]
fn a_page_is_cut_from_the_scrollback() {
    let rows: Vec<Vec<Cell>> = vec![row("a  "), row("b"), row("c"), row("d")];
    assert_eq!(page(&rows, 0, 2), vec!["a", "b"]);
    assert_eq!(page(&rows, -1, 9), vec!["d"]);
    assert_eq!(page(&rows, -9, 1), vec!["a"]);
    assert_eq!(page(&rows, 9, 9), vec!["d"]);
    assert_eq!(page(&rows, 1, 0), Vec::<String>::new());
    assert_eq!(page(&Vec::new(), 0, 5), Vec::<String>::new());
    let many: Vec<Vec<Cell>> = (0..600).map(|_| row("x")).collect();
    assert_eq!(page(&many, 0, 600).len(), MAX_SCROLLBACK_PAGE);
    assert_eq!(
        build_scrollback_page(PaneId(Uuid { value: 5 }), Err("no".to_string()), 0, 1),
        DaemonMsg::Error { message: "failed to read scrollback: no".to_string() }
    );
}

fn session() -> (SessionManager, PaneId, PaneId) {
    let mut sm = SessionManager::new();
    let size = PtySize { rows: 24, cols: 80, pixel_width: 0, pixel_height: 0 };
    let mut make = |cwd: &str| {
        sm.create_pane(
            PaneId::new(),
            Uuid::new_v4(),
            Ok(Some(1)),
            size,
            Some(cwd.to_string()),
            None,
        )
        .unwrap()
    };
    let a = make("/a");
    let b = make("/b");
    (sm, a, b)
}

#[test]
fn panes_are_listed_with_the_shown_one_marked() {
    let (sm, a, b) = session();
    let info = |id: PaneId, cwd: &str, is_active: bool| WirePaneInfo {
        id: id.to_text(),
        title: String::new(),
        cwd: cwd.to_string(),
        git_branch: String::new(),
        running_cmd: String::new(),
        is_active,
    };
    let panes = build_pane_list(&sm);
    assert_eq!(panes, vec![info(a, "/a", true), info(b, "/b", false)]);
    assert_eq!(
        open_stream(&Some(ClientMsg::ListPanes), &sm),
        Opening::Answer(DaemonMsg::PaneList { panes })
    );
}

#[test]
fn a_stream_opens_by_its_first_message() {
    let (sm, a, _) = session();
    let error = |m: &str| Opening::Answer(DaemonMsg::Error { message: m.to_string() });
    let subscribe = |p: &str| Some(ClientMsg::Subscribe { pane_id: p.to_string() });
    assert_eq!(open_stream(&subscribe(&a.to_text()), &sm), Opening::Follow(a));
    assert_eq!(open_stream(&subscribe("x"), &sm), error("invalid pane_id UUID: x"));
    let nil = "00000000-0000-0000-0000-000000000000";
    assert_eq!(
        open_stream(&subscribe(nil), &sm),
        error("pane not found: 00000000-0000-0000-0000-000000000000")
    );
    assert_eq!(
        open_stream(&Some(ClientMsg::Unsubscribe), &sm),
        error("expected Subscribe or ListPanes as first message")
    );
    assert_eq!(open_stream(&None, &sm), Opening::Drop);
}

#[test]
fn a_device_that_is_not_known_is_refused() {
    let registry = DeviceRegistry::from_entries(vec![device("a", "A")]);
    assert_eq!(stream_gate(&registry, "a"), Gate::Serve);
    match stream_gate(&registry, "b") {
        Gate::Refuse { msg, code, reason } => {
            assert_eq!(msg, DaemonMsg::Error { message: "not_authorized".to_string() });
            assert_eq!((code, reason), (1, "not-authorized"));
        }
        other => panic!("expected a refusal, got {:?}", other),
    }
}

#[test]
fn wishes_are_for_the_pane_they_name_or_the_one_followed() {
    let (a, b) = (PaneId::new(), PaneId::new());
    let input = |p: &str| {
        Some(ClientMsg::SendInput { pane_id: p.to_string(), data: b"ls\n".to_vec() })
    };
    assert_eq!(
        client_wish(a, input(&b.to_text())),
        Wish::Input { pane_id: b, data: b"ls\n".to_vec() }
    );
    assert_eq!(client_wish(a, input("?")), Wish::Input { pane_id: a, data: b"ls\n".to_vec() });
    let scroll =
        ClientMsg::RequestScrollback { pane_id: String::new(), from_row: -3, count: 7 };
    assert_eq!(
        client_wish(a, Some(scroll)),
        Wish::Scrollback { pane_id: a, from_row: -3, count: 7 }
    );
    assert_eq!(client_wish(a, Some(ClientMsg::Unsubscribe)), Wish::End);
    assert_eq!(client_wish(a, None), Wish::End);
    assert_eq!(client_wish(a, Some(ClientMsg::ListPanes)), Wish::Ignore);
}

#[test]
fn a_followed_pane_is_streamed() {
    let (a, b) = (PaneId::new(), PaneId::new());
    let output = |p: PaneId| {
        Received::Event(SessionEvent::PtyOutput { pane_id: p, data: vec![1, 2] })
    };
    assert_eq!(
        follow_step(a, &output(a)),
        FollowStep::Send(DaemonMsg::PtyBytes { pane_id: a.to_text(), data: vec![1, 2] })
    );
    assert_eq!(follow_step(a, &output(b)), FollowStep::Wait);
    assert_eq!(
        follow_step(a, &Received::Event(SessionEvent::PaneClosed { pane_id: a })),
        FollowStep::SendAndEnd(DaemonMsg::PaneGone { pane_id: a.to_text() })
    );
    assert_eq!(follow_step(a, &Received::Lagged), FollowStep::Resnapshot);
    assert_eq!(follow_step(a, &Received::Closed), FollowStep::End);
}

// ---------------------------------------------------------------------------
// Identifiers
// ---------------------------------------------------------------------------

#[test]
fn ids_are_read_back_from_their_text() {
    let id = Uuid { value: 0x0123_4567_89ab_cdef_fedc_ba98_7654_3210 };
    assert_eq!(id.to_text(), "01234567-89ab-cdef-fedc-ba9876543210");
    assert_eq!(Uuid::parse_str(&id.to_text()), Some(id));
    assert_eq!(Uuid::parse_str("0123456789abcdeffedcba9876543210"), Some(id));
    assert_eq!(Uuid::parse_str("not-a-uuid"), None);
    assert_ne!(Uuid::new_v4(), Uuid::new_v4());
    // Version and variant of a random id.
    let v = Uuid::new_v4().value;
    assert_eq!((v >> 76) & 0xf, 4);
    assert_eq!((v >> 62) & 3, 2);
}
