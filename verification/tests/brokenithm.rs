use slider_io::device::brokenithm::{
    end_session, handle_request, handle_socket_event, lights_frame, parse_brokenithm_message,
    reset_input, serve_file, start_session, Asset, BrokenithmJob, BrokenithmMessage, Reply,
    SessionAction, SliderInput, SocketEvent, StopReason,
};
use slider_io::device::config::BrokenithmSpec;

#[test]
fn parses_heartbeat() {
    assert!(matches!(
        parse_brokenithm_message("alive?"),
        Some(BrokenithmMessage::Alive)
    ));
}

#[test]
fn parses_all_ground_and_air_bits() {
    let message = format!("b{}{}", "10".repeat(16), "101010");
    match parse_brokenithm_message(&message) {
        Some(BrokenithmMessage::Input { ground, air }) => {
            assert_eq!(ground[0], 255);
            assert_eq!(ground[1], 0);
            assert_eq!(ground[30], 255);
            assert_eq!(ground[31], 0);
            assert_eq!(air, [1, 0, 1, 0, 1, 0]);
        }
        _ => panic!("expected input message"),
    }
}

#[test]
fn rejects_malformed_messages() {
    assert!(parse_brokenithm_message("b000").is_none());
    assert!(parse_brokenithm_message(&format!("x{}{}", "0".repeat(32), "0".repeat(6))).is_none());
    assert!(parse_brokenithm_message(&format!("b{}{}", "0".repeat(31), "x".repeat(7))).is_none());
}

#[test]
fn rejects_near_heartbeats_and_non_ascii_frames() {
    assert!(parse_brokenithm_message("alive").is_none());
    assert!(parse_brokenithm_message("alive?!").is_none());
    assert!(parse_brokenithm_message("").is_none());
    // 39 characters, but one of them takes two bytes.
    let message = format!("b{}é{}", "0".repeat(31), "0".repeat(6));
    assert_eq!(message.chars().count(), 39);
    assert!(parse_brokenithm_message(&message).is_none());
    // 40 characters.
    assert!(parse_brokenithm_message(&format!("b{}", "1".repeat(39))).is_none());
}

#[test]
fn parses_all_ones_and_all_zeros() {
    match parse_brokenithm_message(&format!("b{}", "1".repeat(38))) {
        Some(BrokenithmMessage::Input { ground, air }) => {
            assert_eq!(ground, [255; 32]);
            assert_eq!(air, [1; 6]);
        }
        _ => panic!("expected input message"),
    }
    match parse_brokenithm_message(&format!("b{}", "0".repeat(38))) {
        Some(BrokenithmMessage::Input { ground, air }) => {
            assert_eq!(ground, [0; 32]);
            assert_eq!(air, [0; 6]);
        }
        _ => panic!("expected input message"),
    }
}

fn frame_with_key(key: usize) -> String {
    let mut bits = vec!['0'; 38];
    bits[key] = '1';
    format!("b{}", bits.into_iter().collect::<String>())
}

#[test]
fn reset_input_releases_everything() {
    let mut input = SliderInput { ground: [7; 32], air: [3; 6] };
    reset_input(&mut input);
    assert_eq!(input.ground, [0; 32]);
    assert_eq!(input.air, [0; 6]);
    let fresh = SliderInput::new();
    assert_eq!(fresh.ground, [0; 32]);
    assert_eq!(fresh.air, [0; 6]);
}

#[test]
fn heartbeat_is_answered_and_keeps_input() {
    let mut input = SliderInput { ground: [9; 32], air: [1; 6] };
    let action = handle_socket_event(&SocketEvent::Text("alive?".to_string()), 1, 1, &mut input);
    match action {
        SessionAction::Reply(text) => assert_eq!(text, "alive"),
        _ => panic!("expected a reply"),
    }
    assert_eq!(input.ground, [9; 32]);
    assert_eq!(input.air, [1; 6]);
}

#[test]
fn active_session_frame_sets_input() {
    let mut input = SliderInput::new();
    let action = handle_socket_event(&SocketEvent::Text(frame_with_key(2)), 4, 4, &mut input);
    assert!(matches!(action, SessionAction::Continue));
    let mut expected = [0u8; 32];
    expected[2] = 255;
    assert_eq!(input.ground, expected);
    assert_eq!(input.air, [0; 6]);
    let action = handle_socket_event(&SocketEvent::Text(frame_with_key(33)), 4, 4, &mut input);
    assert!(matches!(action, SessionAction::Continue));
    assert_eq!(input.ground, [0; 32]);
    assert_eq!(input.air, [0, 1, 0, 0, 0, 0]);
}

#[test]
fn superseded_session_frame_is_ignored() {
    let mut input = SliderInput::new();
    let first = start_session(0, &mut input);
    assert_eq!(first, 1);
    let second = start_session(first, &mut input);
    assert_eq!(second, 2);
    let action = handle_socket_event(&SocketEvent::Text(frame_with_key(0)), first, second, &mut input);
    assert!(matches!(action, SessionAction::Continue));
    assert_eq!(input.ground, [0; 32]);
    // The stale session ending does not release the newer session's keys.
    handle_socket_event(&SocketEvent::Text(frame_with_key(5)), second, second, &mut input);
    end_session(first, second, &mut input);
    assert_eq!(input.ground[5], 255);
    // The active session ending releases them.
    end_session(second, second, &mut input);
    assert_eq!(input.ground, [0; 32]);
    assert_eq!(input.air, [0; 6]);
}

#[test]
fn start_session_releases_input() {
    let mut input = SliderInput { ground: [255; 32], air: [1; 6] };
    assert_eq!(start_session(41, &mut input), 42);
    assert_eq!(input.ground, [0; 32]);
    assert_eq!(input.air, [0; 6]);
}

#[test]
fn invalid_close_and_failure_stop_reading() {
    let mut input = SliderInput::new();
    let action = handle_socket_event(&SocketEvent::Text("b000".to_string()), 1, 1, &mut input);
    assert!(matches!(action, SessionAction::Stop(StopReason::InvalidMessage)));
    let action = handle_socket_event(&SocketEvent::Close, 1, 1, &mut input);
    assert!(matches!(action, SessionAction::Stop(StopReason::Closed)));
    let action = handle_socket_event(&SocketEvent::Failed, 1, 1, &mut input);
    assert!(matches!(action, SessionAction::Stop(StopReason::Failed)));
    let action = handle_socket_event(&SocketEvent::Other, 1, 1, &mut input);
    assert!(matches!(action, SessionAction::Continue));
}

#[test]
fn lights_frame_copies_the_light_state() {
    let ground: Vec<u8> = (0..93u8).collect();
    let frame = lights_frame(&ground);
    assert_eq!(frame, ground);
}

#[test]
fn serve_file_finds_each_page_file() {
    let all = [
        Asset::AppJs,
        Asset::ConfigJs,
        Asset::IndexNs,
        Asset::IndexGo,
        Asset::Index,
        Asset::Favicon,
        Asset::Icon,
    ];
    for asset in all {
        assert_eq!(serve_file(asset.file_name()), Reply::File(asset));
    }
    assert_eq!(serve_file("app.js"), Reply::File(Asset::AppJs));
    assert_eq!(Asset::AppJs.mime_type(), "text/javascript");
    assert_eq!(Asset::ConfigJs.mime_type(), "text/javascript");
    assert_eq!(Asset::Index.mime_type(), "text/html");
    assert_eq!(Asset::Favicon.mime_type(), "image/x-icon");
    assert_eq!(Asset::Icon.file_name(), "icon.png");
    assert_eq!(Asset::Icon.mime_type(), "image/png");
    assert_eq!(serve_file("missing.js"), Reply::NotFound);
    assert_eq!(serve_file("/app.js"), Reply::NotFound);
    assert_eq!(serve_file(""), Reply::NotFound);
}

#[test]
fn index_follows_the_layout() {
    assert_eq!(handle_request(true, "/", false, BrokenithmSpec::Basic), Reply::File(Asset::Index));
    assert_eq!(
        handle_request(true, "/index.html", false, BrokenithmSpec::GroundOnly),
        Reply::File(Asset::IndexGo)
    );
    assert_eq!(
        handle_request(true, "/", false, BrokenithmSpec::Nostalgia),
        Reply::File(Asset::IndexNs)
    );
    assert_eq!(
        handle_request(true, "/index-go.html", false, BrokenithmSpec::Basic),
        Reply::File(Asset::IndexGo)
    );
}

#[test]
fn routes_files_websocket_and_refusals() {
    let spec = BrokenithmSpec::Basic;
    assert_eq!(handle_request(true, "/app.js", false, spec), Reply::File(Asset::AppJs));
    assert_eq!(handle_request(true, "/favicon.ico", false, spec), Reply::File(Asset::Favicon));
    assert_eq!(handle_request(true, "/nothing", false, spec), Reply::NotFound);
    assert_eq!(handle_request(true, "/ws", true, spec), Reply::WebSocket);
    assert_eq!(handle_request(true, "/ws", false, spec), Reply::NotFound);
    assert_eq!(handle_request(true, "/", true, spec), Reply::NotFound);
    assert_eq!(handle_request(false, "/", false, spec), Reply::NotFound);
    assert_eq!(handle_request(false, "/ws", true, spec), Reply::NotFound);
    assert_eq!(handle_request(true, "/é", false, spec), Reply::NotFound);
}

#[test]
fn job_keeps_its_settings() {
    let state = vec![1u8, 2, 3];
    let job = BrokenithmJob::new(&state, &BrokenithmSpec::GroundOnly, &true, &1700);
    assert_eq!(job.state(), &state);
    assert_eq!(job.spec(), BrokenithmSpec::GroundOnly);
    assert!(job.lights_enabled());
    assert_eq!(job.port(), 1700);
}
