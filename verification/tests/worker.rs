use pangea_client::client::{build_envelope, filter_chunk};
use pangea_client::envelope::{Bound, Format, Operation, Param, ParamValue};
use pangea_client::error::WsError;
use pangea_client::frame::{parse_frame, Kind};
use pangea_client::registry::MsgId;
use pangea_client::worker::{
    parse_response_error, InboundAction, SocketMessage, TickAction, WorkerCore,
};

const UUID_1: &str = "00000000-0000-0000-0000-000000000001";

fn frame(kind: &str, id: &str, counter: u64, body: &[u8]) -> Vec<u8> {
    let mut out = format!(
        "{{\"kind\": \"{}\", \"id\": \"{}\", \"counter\": {}}}\n",
        kind, id, counter
    )
    .into_bytes();
    out.extend_from_slice(body);
    out
}

fn sample_env(id: u128) -> pangea_client::envelope::Envelope {
    build_envelope(
        id,
        Operation::GetBlocks,
        vec![
            Param { key: b"chains".to_vec(), value: ParamValue::Text(b"eth".to_vec()) },
            Param { key: b"from_block".to_vec(), value: ParamValue::Block(Bound::FromLatest(2)) },
            Param { key: b"to_block".to_vec(), value: ParamValue::Block(Bound::Latest) },
        ],
        Format::JsonStream,
        false,
    )
    .unwrap()
}

/// Drives one subscription through the worker and the facade filter,
/// collecting what the caller would see.
fn run_frames(core: &mut WorkerCore<u32>, frames: Vec<Vec<u8>>) -> Vec<Result<Vec<u8>, String>> {
    let mut seen = Vec::new();
    for f in frames {
        match core.on_message(SocketMessage::Binary(f)) {
            InboundAction::Ignore => {}
            InboundAction::Deliver { id: _, item } => {
                if let Some(item) = filter_chunk(item) {
                    seen.push(item.map_err(|e| e.describe()));
                }
            }
            InboundAction::Closed { removed } => {
                assert!(removed.is_some());
            }
            InboundAction::Terminal { removed, item } => {
                assert!(removed.is_some());
                if let Some(item) = filter_chunk(item) {
                    seen.push(item.map_err(|e| e.describe()));
                }
            }
            InboundAction::ReplyPong(_) => panic!("unexpected pong request"),
            InboundAction::Fatal(e) => panic!("unexpected fatal error {:?}", e),
        }
    }
    seen
}

#[test]
fn happy_stream_delivers_both_bodies() {
    let mut core: WorkerCore<u32> = WorkerCore::new(0);
    let env = sample_env(1);
    let (payload, replaced) = core.on_operation(&env, 42);
    assert!(!replaced);
    assert!(payload.starts_with(b"{\"id\":\"00000000-0000-0000-0000-000000000001\""));
    let seen = run_frames(
        &mut core,
        vec![
            frame("Start", UUID_1, 0, b""),
            frame("Continue", UUID_1, 1, b"b1"),
            frame("Continue", UUID_1, 2, b"b2"),
            frame("End", UUID_1, 3, b""),
        ],
    );
    assert_eq!(seen, vec![Ok(b"b1".to_vec()), Ok(b"b2".to_vec())]);
    assert_eq!(core.registry.len(), 0);
}

#[test]
fn empty_bodies_are_filtered_out() {
    let mut core: WorkerCore<u32> = WorkerCore::new(0);
    let env = sample_env(1);
    core.on_operation(&env, 42);
    let seen = run_frames(
        &mut core,
        vec![
            frame("Start", UUID_1, 0, b""),
            frame("Continue", UUID_1, 1, b""),
            frame("Continue", UUID_1, 2, b"b1"),
            frame("Continue", UUID_1, 3, b""),
            frame("End", UUID_1, 4, b""),
        ],
    );
    assert_eq!(seen, vec![Ok(b"b1".to_vec())]);
}

#[test]
fn nonterminal_error_keeps_the_stream_open() {
    let mut core: WorkerCore<u32> = WorkerCore::new(0);
    let env = sample_env(1);
    core.on_operation(&env, 42);
    let body = b"{\"code\":\"rate_limited\",\"message\":\"slow down\"}";
    let act = core.on_message(SocketMessage::Binary(frame("ContinueWithError", UUID_1, 1, body)));
    match act {
        InboundAction::Deliver { id, item } => {
            assert_eq!(id, MsgId(1));
            match item {
                Err(WsError::ErrorResponse(re)) => {
                    assert_eq!(re.code, "rate_limited");
                    assert_eq!(re.message, "slow down");
                }
                other => panic!("expected a structured error, got {:?}", other),
            }
        }
        _ => panic!("expected a delivery"),
    }
    // the subscription stays registered, a later Continue still arrives
    let seen = run_frames(
        &mut core,
        vec![frame("Continue", UUID_1, 2, b"b1"), frame("End", UUID_1, 3, b"")],
    );
    assert_eq!(seen, vec![Ok(b"b1".to_vec())]);
}

#[test]
fn terminal_error_ends_the_stream() {
    let mut core: WorkerCore<u32> = WorkerCore::new(0);
    let env = sample_env(1);
    core.on_operation(&env, 42);
    let act = core.on_message(SocketMessage::Binary(frame("Error", UUID_1, 1, b"bad query")));
    match act {
        InboundAction::Terminal { removed, item } => {
            assert_eq!(removed, Some(42));
            match item {
                Err(WsError::ErrorMsg(s)) => assert_eq!(s, "bad query"),
                other => panic!("expected a plain-text error, got {:?}", other),
            }
        }
        _ => panic!("expected a terminal delivery"),
    }
    assert_eq!(core.registry.len(), 0);
}

#[test]
fn ping_timeout_fans_out_to_every_live_caller() {
    let mut core: WorkerCore<u32> = WorkerCore::new(0);
    core.on_operation(&sample_env(1), 41);
    core.on_operation(&sample_env(2), 42);
    core.note_inbound(0);
    assert_eq!(core.on_tick(4000), TickAction::SendPing);
    assert_eq!(core.on_tick(9000), TickAction::SendPing);
    assert_eq!(core.on_tick(9001), TickAction::TimedOut);
    assert_eq!(core.on_tick(14000), TickAction::TimedOut);
    let err = WsError::PingTimeout;
    let out = core.fail_all(err.describe().as_str());
    assert_eq!(out.len(), 2);
    for (_, _, e) in out {
        match e {
            WsError::ErrorMsg(s) => assert_eq!(s, "PingTimeout"),
            other => panic!("expected a plain-text error, got {:?}", other),
        }
    }
    assert_eq!(core.registry.len(), 0);
}

#[test]
fn duplicate_identifier_replaces_the_prior_sink() {
    let mut core: WorkerCore<u32> = WorkerCore::new(0);
    let env = sample_env(1);
    let (_, replaced) = core.on_operation(&env, 41);
    assert!(!replaced);
    let (_, replaced) = core.on_operation(&env, 42);
    assert!(replaced);
    // only the most recent sink is reachable under the identifier
    match core.on_message(SocketMessage::Binary(frame("End", UUID_1, 1, b""))) {
        InboundAction::Closed { removed } => assert_eq!(removed, Some(42)),
        _ => panic!("expected the entry to close"),
    }
}

#[test]
fn no_sink_remains_after_a_terminal_frame() {
    let mut core: WorkerCore<u32> = WorkerCore::new(0);
    core.on_operation(&sample_env(1), 42);
    core.on_message(SocketMessage::Binary(frame("End", UUID_1, 1, b"")));
    // a late frame still routes by identifier, but no sink can receive it
    match core.on_message(SocketMessage::Binary(frame("Continue", UUID_1, 2, b"late"))) {
        InboundAction::Deliver { id, .. } => {
            assert!(core.registry.lookup(id).is_none());
        }
        _ => panic!("expected a routed delivery"),
    }
}

#[test]
fn start_frame_for_an_unknown_identifier_is_ignored() {
    let mut core: WorkerCore<u32> = WorkerCore::new(0);
    match core.on_message(SocketMessage::Binary(frame("Start", UUID_1, 0, b""))) {
        InboundAction::Ignore => {}
        _ => panic!("a Start frame is a no-op"),
    }
}

#[test]
fn frame_without_newline_is_malformed() {
    let r = parse_frame(&b"{\"kind\": \"Continue\"}".to_vec());
    assert!(matches!(r, Err(WsError::UnexpectedMessageFormat)));
}

#[test]
fn frame_with_bad_header_is_malformed() {
    let r = parse_frame(&b"{\"kind\": \"Wat\", \"id\": \"x\", \"counter\": 1}\nbody".to_vec());
    assert!(matches!(r, Err(WsError::UnexpectedMessageFormat)));
}

#[test]
fn frame_header_parses_with_and_without_epoch() {
    let (h, body) = parse_frame(&frame("Continue", UUID_1, 7, b"payload")).unwrap();
    assert_eq!(h.kind, Kind::Continue);
    assert_eq!(h.id, MsgId(1));
    assert_eq!(h.counter, 7);
    assert_eq!(h.epoch, None);
    assert_eq!(body, b"payload".to_vec());

    let raw = format!(
        "{{\"kind\": \"End\", \"id\": \"{}\", \"counter\": 9, \"epoch\": 3}}\nrest",
        UUID_1
    )
    .into_bytes();
    let (h, body) = parse_frame(&raw).unwrap();
    assert_eq!(h.kind, Kind::End);
    assert_eq!(h.counter, 9);
    assert_eq!(h.epoch, Some(3));
    assert_eq!(body, b"rest".to_vec());
}

#[test]
fn text_frame_is_fatal() {
    let mut core: WorkerCore<u32> = WorkerCore::new(0);
    match core.on_message(SocketMessage::Text) {
        InboundAction::Fatal(WsError::UnexpectedMessage) => {}
        _ => panic!("a Text frame tears the connection down"),
    }
}

#[test]
fn close_frame_is_fatal_and_raw_frames_are_not() {
    let mut core: WorkerCore<u32> = WorkerCore::new(0);
    assert!(matches!(
        core.on_message(SocketMessage::Close),
        InboundAction::Fatal(WsError::UnexpectedClose)
    ));
    assert!(matches!(core.on_message(SocketMessage::RawFrame), InboundAction::Ignore));
    assert!(matches!(core.on_message(SocketMessage::Pong), InboundAction::Ignore));
}

#[test]
fn ping_is_answered_with_the_same_payload() {
    let mut core: WorkerCore<u32> = WorkerCore::new(0);
    match core.on_message(SocketMessage::Ping(b"nonce".to_vec())) {
        InboundAction::ReplyPong(p) => assert_eq!(p, b"nonce".to_vec()),
        _ => panic!("a Ping frame asks for a Pong"),
    }
}

#[test]
fn structured_error_body_that_is_not_structured_is_malformed() {
    let mut core: WorkerCore<u32> = WorkerCore::new(0);
    core.on_operation(&sample_env(1), 42);
    let act = core.on_message(SocketMessage::Binary(frame(
        "ContinueWithError",
        UUID_1,
        1,
        b"{oops, not a structured error",
    )));
    match act {
        InboundAction::Deliver { item, .. } => {
            assert!(matches!(item, Err(WsError::UnexpectedMessageFormat)));
        }
        _ => panic!("expected a delivery"),
    }
}

#[test]
fn invalid_utf8_error_body_is_malformed() {
    let mut core: WorkerCore<u32> = WorkerCore::new(0);
    core.on_operation(&sample_env(1), 42);
    let act = core.on_message(SocketMessage::Binary(frame(
        "ContinueWithError",
        UUID_1,
        1,
        &[0xff, 0xfe, 0x00],
    )));
    match act {
        InboundAction::Deliver { item, .. } => {
            assert!(matches!(item, Err(WsError::UnexpectedMessageFormat)));
        }
        _ => panic!("expected a delivery"),
    }
}

#[test]
fn plain_text_error_body_stays_nonterminal() {
    let mut core: WorkerCore<u32> = WorkerCore::new(0);
    core.on_operation(&sample_env(1), 42);
    let act = core.on_message(SocketMessage::Binary(frame(
        "ContinueWithError",
        UUID_1,
        1,
        b"try later",
    )));
    match act {
        InboundAction::Deliver { item, .. } => match item {
            Err(WsError::ErrorMsg(s)) => assert_eq!(s, "try later"),
            other => panic!("expected a plain-text error, got {:?}", other),
        },
        _ => panic!("expected a delivery"),
    }
    assert_eq!(core.registry.len(), 1);
}

#[test]
fn subscription_kind_is_a_per_item_format_error() {
    let mut core: WorkerCore<u32> = WorkerCore::new(0);
    core.on_operation(&sample_env(1), 42);
    let act = core.on_message(SocketMessage::Binary(frame("Subscription", UUID_1, 1, b"x")));
    match act {
        InboundAction::Deliver { item, .. } => {
            assert!(matches!(item, Err(WsError::UnexpectedMessageFormat)));
        }
        _ => panic!("expected a delivery"),
    }
    assert_eq!(core.registry.len(), 1);
}

#[test]
fn response_error_parser_reads_the_documented_shape() {
    let re = parse_response_error(&b"{\"code\": \"rate_limited\", \"message\": \"m\"}".to_vec())
        .unwrap();
    assert_eq!(re.code, "rate_limited");
    assert_eq!(re.message, "m");
    assert!(parse_response_error(&b"{\"code\":\"x\"}".to_vec()).is_none());
    assert!(parse_response_error(&b"[]".to_vec()).is_none());
}
