use cheese_gateway::codec::decode_frame;
use cheese_gateway::codec::encode_frame;
use cheese_gateway::codec::heartbeat_message;
use cheese_gateway::codec::DecodeError;
use cheese_gateway::codec::EventKind;
use cheese_gateway::codec::InboundFrame;
use cheese_gateway::codec::OutboundFrame;
use cheese_gateway::dispatcher::Action;
use cheese_gateway::dispatcher::CloseReason;
use cheese_gateway::dispatcher::Dispatcher;
use cheese_gateway::dispatcher::State;
use cheese_gateway::intents::Intents;
use cheese_gateway::intents::INTENTS_ALL;
use cheese_gateway::intents::INTENTS_ALL_WITHOUT_PRIVILEDGED;
use cheese_gateway::intents::INTENTS_NONE;

fn chars(s: &str) -> Vec<char> {
    s.chars().collect()
}

fn text(v: &[char]) -> String {
    v.iter().collect()
}

fn fresh() -> Dispatcher {
    Dispatcher::new(chars("token-abc"), INTENTS_ALL_WITHOUT_PRIVILEDGED, chars("Cheese"))
}

#[test]
fn decode_hello() {
    let r = decode_frame(&chars("{\"op\":10,\"d\":{\"heartbeat_interval\":30000}}"));
    assert!(matches!(r, Ok(InboundFrame::Hello { heartbeat_interval_ms: 30000 })));
}

#[test]
fn decode_dispatch_ready() {
    let r = decode_frame(&chars("{\"op\":0,\"t\":\"READY\",\"s\":5,\"d\":{\"v\":10}}"));
    match r {
        Ok(InboundFrame::Dispatch { event, sequence }) => {
            assert_eq!(sequence, 5);
            assert_eq!(text(&event.name), "READY");
            assert_eq!(text(&event.payload), "{\"v\":10}");
            assert_eq!(event.kind(), EventKind::Ready);
        }
        _ => panic!("expected a dispatch frame"),
    }
}

#[test]
fn decode_dispatch_members_in_any_order() {
    let r = decode_frame(&chars("{\"t\":\"INTERACTION_CREATE\",\"s\":7,\"op\":0,\"d\":[1,2]}"));
    match r {
        Ok(InboundFrame::Dispatch { event, sequence }) => {
            assert_eq!(sequence, 7);
            assert_eq!(event.kind(), EventKind::InteractionCreate);
            assert_eq!(text(&event.payload), "[1,2]");
        }
        _ => panic!("expected a dispatch frame"),
    }
}

#[test]
fn decode_dispatch_unknown_event_is_other_not_error() {
    let r = decode_frame(&chars("{\"op\":0,\"t\":\"TYPING_START\",\"s\":9,\"d\":{}}"));
    match r {
        Ok(InboundFrame::Dispatch { event, .. }) => {
            assert_eq!(event.kind(), EventKind::Other);
        }
        _ => panic!("expected a dispatch frame"),
    }
}

#[test]
fn decode_control_frames() {
    assert!(matches!(
        decode_frame(&chars("{\"op\":1,\"d\":null}")),
        Ok(InboundFrame::HeartbeatRequest)
    ));
    assert!(matches!(decode_frame(&chars("{\"op\":7,\"d\":null}")), Ok(InboundFrame::Reconnect)));
    assert!(matches!(
        decode_frame(&chars("{\"op\":9,\"d\":true}")),
        Ok(InboundFrame::InvalidSession { resumable: true })
    ));
    assert!(matches!(
        decode_frame(&chars("{\"op\":9,\"d\":false}")),
        Ok(InboundFrame::InvalidSession { resumable: false })
    ));
    assert!(matches!(
        decode_frame(&chars("{\"op\":11,\"d\":null}")),
        Ok(InboundFrame::HeartbeatAck)
    ));
}

#[test]
fn decode_errors() {
    assert_eq!(decode_frame(&chars("not json at all")).unwrap_err(), DecodeError::Malformed);
    assert_eq!(decode_frame(&chars("")).unwrap_err(), DecodeError::Malformed);
    assert_eq!(decode_frame(&chars("{\"d\":null}")).unwrap_err(), DecodeError::Malformed);
    assert_eq!(
        decode_frame(&chars("{\"op\":4,\"d\":null}")).unwrap_err(),
        DecodeError::UnknownOpcode { opcode: 4 }
    );
    // a dispatch without its sequence, or with a null one, is malformed
    assert_eq!(
        decode_frame(&chars("{\"op\":0,\"t\":\"READY\",\"d\":{}}")).unwrap_err(),
        DecodeError::Malformed
    );
    assert_eq!(
        decode_frame(&chars("{\"op\":0,\"t\":\"READY\",\"s\":null,\"d\":{}}")).unwrap_err(),
        DecodeError::Malformed
    );
    // a hello whose payload lacks the cadence is malformed
    assert_eq!(
        decode_frame(&chars("{\"op\":10,\"d\":{}}")).unwrap_err(),
        DecodeError::Malformed
    );
    // trailing text past the envelope is malformed
    assert_eq!(decode_frame(&chars("{\"op\":1}x")).unwrap_err(), DecodeError::Malformed);
}

#[test]
fn decode_tolerates_extra_members() {
    let r = decode_frame(&chars(
        "{\"op\":10,\"d\":{\"heartbeat_interval\":41250,\"_trace\":[\"gateway-prd\"]},\"s\":null,\"t\":null}",
    ));
    assert!(matches!(r, Ok(InboundFrame::Hello { heartbeat_interval_ms: 41250 })));
}

#[test]
fn decode_tolerates_whitespace_between_tokens() {
    let r = decode_frame(&chars(
        " { \"op\" : 10 , \"d\" : { \"heartbeat_interval\" : 30000 } } \n",
    ));
    assert!(matches!(r, Ok(InboundFrame::Hello { heartbeat_interval_ms: 30000 })));
    let r = decode_frame(&chars("{\"op\": 0, \"t\": \"READY\", \"s\": 5, \"d\": {}}"));
    match r {
        Ok(InboundFrame::Dispatch { event, sequence }) => {
            assert_eq!(sequence, 5);
            assert_eq!(text(&event.payload), "{}");
        }
        _ => panic!("expected a dispatch frame"),
    }
    // whitespace inside a value does not leak into the value's text
    assert!(matches!(
        decode_frame(&chars("{\"op\": 9, \"d\": true }")),
        Ok(InboundFrame::InvalidSession { resumable: true })
    ));
}

#[test]
fn decode_repeated_member_takes_the_later_one() {
    let r = decode_frame(&chars("{\"op\":11,\"op\":7,\"d\":null}"));
    assert!(matches!(r, Ok(InboundFrame::Reconnect)));
}

#[test]
fn decode_outbound_only_opcode_is_unknown_inbound() {
    assert_eq!(
        decode_frame(&chars("{\"op\":2,\"d\":{}}")).unwrap_err(),
        DecodeError::UnknownOpcode { opcode: 2 }
    );
}

#[test]
fn decode_sequence_at_the_limits() {
    let r = decode_frame(&chars(
        "{\"op\":0,\"t\":\"A\",\"s\":18446744073709551615,\"d\":{}}",
    ));
    match r {
        Ok(InboundFrame::Dispatch { sequence, .. }) => assert_eq!(sequence, u64::MAX),
        _ => panic!("expected a dispatch frame"),
    }
    // one past the range of a u64 is malformed, not wrapped
    assert_eq!(
        decode_frame(&chars("{\"op\":0,\"t\":\"A\",\"s\":18446744073709551616,\"d\":{}}"))
            .unwrap_err(),
        DecodeError::Malformed
    );
}

#[test]
fn decode_event_name_with_escape_is_kept_raw() {
    let r = decode_frame(&chars("{\"op\":0,\"t\":\"A\\\"B\",\"s\":1,\"d\":{}}"));
    match r {
        Ok(InboundFrame::Dispatch { event, .. }) => {
            assert_eq!(text(&event.name), "A\\\"B");
            assert_eq!(event.kind(), EventKind::Other);
        }
        _ => panic!("expected a dispatch frame"),
    }
}

#[test]
fn encode_heartbeat_null_and_value() {
    assert_eq!(text(&heartbeat_message(None)), "{\"op\":1,\"d\":null}");
    assert_eq!(text(&heartbeat_message(Some(5))), "{\"op\":1,\"d\":5}");
    assert_eq!(text(&heartbeat_message(Some(1234567890))), "{\"op\":1,\"d\":1234567890}");
}

#[test]
fn encode_identify_escapes_token() {
    let frame = OutboundFrame::Identify {
        token: chars("a\"b\\c"),
        intents: INTENTS_NONE,
        device: chars("Cheese"),
    };
    assert_eq!(
        text(&encode_frame(&frame)),
        "{\"op\":2,\"d\":{\"token\":\"a\\\"b\\\\c\",\"intents\":0,\"properties\":{\"device\":\"Cheese\"}}}"
    );
}

#[test]
fn heartbeat_round_trips_to_heartbeat_request() {
    assert!(matches!(
        decode_frame(&heartbeat_message(None)),
        Ok(InboundFrame::HeartbeatRequest)
    ));
    assert!(matches!(
        decode_frame(&heartbeat_message(Some(41250))),
        Ok(InboundFrame::HeartbeatRequest)
    ));
}

#[test]
fn hello_yields_identify_then_first_heartbeat_unset() {
    let mut d = fresh();
    assert_eq!(d.current_state(), State::AwaitingHello);
    let a = d.handle_text(&chars("{\"op\":10,\"d\":{\"heartbeat_interval\":30000}}"));
    match a {
        Action::Send { frame, start_heartbeat_ms } => {
            assert_eq!(start_heartbeat_ms, Some(30000));
            assert_eq!(
                text(&encode_frame(&frame)),
                "{\"op\":2,\"d\":{\"token\":\"token-abc\",\"intents\":32509,\"properties\":{\"device\":\"Cheese\"}}}"
            );
        }
        _ => panic!("expected the identify to be sent"),
    }
    assert_eq!(d.current_state(), State::Identified);
    assert!(d.is_heartbeat_running());
    // the first scheduled heartbeat: no dispatch seen yet, so d is null
    let hb = d.on_tick().expect("heartbeat task runs after hello");
    assert_eq!(text(&encode_frame(&hb)), "{\"op\":1,\"d\":null}");
    assert_eq!(d.last_sequence(), None);
}

#[test]
fn dispatch_then_tick_carries_sequence() {
    let mut d = fresh();
    d.handle_text(&chars("{\"op\":10,\"d\":{\"heartbeat_interval\":30000}}"));
    let a = d.handle_text(&chars("{\"op\":0,\"t\":\"READY\",\"s\":5,\"d\":{}}"));
    assert!(matches!(a, Action::Deliver { .. }));
    assert_eq!(d.last_sequence(), Some(5));
    let hb = d.on_tick().expect("heartbeat still running");
    assert_eq!(text(&encode_frame(&hb)), "{\"op\":1,\"d\":5}");
}

#[test]
fn sequence_tracks_last_dispatch_seen() {
    let mut d = fresh();
    d.handle_text(&chars("{\"op\":10,\"d\":{\"heartbeat_interval\":30000}}"));
    d.handle_text(&chars("{\"op\":0,\"t\":\"A\",\"s\":3,\"d\":{}}"));
    d.handle_text(&chars("{\"op\":11,\"d\":null}"));
    d.handle_text(&chars("{\"op\":0,\"t\":\"B\",\"s\":8,\"d\":{}}"));
    assert_eq!(d.last_sequence(), Some(8));
}

#[test]
fn heartbeat_request_is_answered_at_once() {
    let mut d = fresh();
    d.handle_text(&chars("{\"op\":10,\"d\":{\"heartbeat_interval\":30000}}"));
    d.handle_text(&chars("{\"op\":0,\"t\":\"A\",\"s\":2,\"d\":{}}"));
    let a = d.handle_text(&chars("{\"op\":1,\"d\":null}"));
    match a {
        Action::Send { frame, start_heartbeat_ms } => {
            assert_eq!(start_heartbeat_ms, None);
            assert_eq!(text(&encode_frame(&frame)), "{\"op\":1,\"d\":2}");
        }
        _ => panic!("expected an immediate heartbeat"),
    }
}

#[test]
fn decode_failure_changes_nothing_and_next_frame_proceeds() {
    let mut d = fresh();
    d.handle_text(&chars("{\"op\":10,\"d\":{\"heartbeat_interval\":30000}}"));
    d.handle_text(&chars("{\"op\":0,\"t\":\"A\",\"s\":4,\"d\":{}}"));
    let a = d.handle_text(&chars("{{{ bad frame"));
    assert!(matches!(a, Action::Ignore));
    assert_eq!(d.current_state(), State::Identified);
    assert_eq!(d.last_sequence(), Some(4));
    assert!(d.is_heartbeat_running());
    // the frame after the bad one is processed normally
    d.handle_text(&chars("{\"op\":0,\"t\":\"B\",\"s\":6,\"d\":{}}"));
    assert_eq!(d.last_sequence(), Some(6));
}

#[test]
fn close_signals_end_the_connection() {
    let mut d = fresh();
    d.handle_text(&chars("{\"op\":10,\"d\":{\"heartbeat_interval\":30000}}"));
    let a = d.handle_text(&chars("{\"op\":7,\"d\":null}"));
    assert!(matches!(
        a,
        Action::Close { reason: CloseReason::ServerRequestedReconnect }
    ));
    assert_eq!(d.current_state(), State::Closed);
    assert!(!d.is_heartbeat_running());
    assert!(d.on_tick().is_none());
}

#[test]
fn invalid_session_then_fresh_connection_starts_unset() {
    let mut d = fresh();
    d.handle_text(&chars("{\"op\":10,\"d\":{\"heartbeat_interval\":30000}}"));
    d.handle_text(&chars("{\"op\":0,\"t\":\"A\",\"s\":41,\"d\":{}}"));
    let a = d.handle_text(&chars("{\"op\":9,\"d\":false}"));
    assert!(matches!(
        a,
        Action::Close { reason: CloseReason::SessionInvalid { resumable: false } }
    ));
    // reconnecting makes a new dispatcher: no sequence carries over
    let d2 = fresh();
    assert_eq!(d2.last_sequence(), None);
    assert_eq!(d2.current_state(), State::AwaitingHello);
}

#[test]
fn dispatch_before_hello_tracks_sequence_but_is_not_delivered() {
    let mut d = fresh();
    let a = d.handle_text(&chars("{\"op\":0,\"t\":\"A\",\"s\":1,\"d\":{}}"));
    assert!(matches!(a, Action::Ignore));
    assert_eq!(d.last_sequence(), Some(1));
    assert_eq!(d.current_state(), State::AwaitingHello);
}

#[test]
fn second_hello_is_tolerated_without_a_second_identify() {
    let mut d = fresh();
    d.handle_text(&chars("{\"op\":10,\"d\":{\"heartbeat_interval\":30000}}"));
    let a = d.handle_text(&chars("{\"op\":10,\"d\":{\"heartbeat_interval\":1000}}"));
    assert!(matches!(a, Action::Ignore));
    assert_eq!(d.current_state(), State::Identified);
}

#[test]
fn intent_masks() {
    assert_eq!(INTENTS_NONE, 0);
    assert_eq!(INTENTS_ALL_WITHOUT_PRIVILEDGED, 32509);
    assert_eq!(INTENTS_ALL, 32767);
    assert_eq!(Intents::Guilds.bit(), 1);
    assert_eq!(Intents::GuildMembers.bit(), 2);
    assert_eq!(Intents::GuildPresences.bit(), 256);
    assert_eq!(Intents::DirectMessageTyping.bit(), 1 << 14);
    assert_eq!(
        INTENTS_ALL_WITHOUT_PRIVILEDGED | Intents::GuildMembers.bit() | Intents::GuildPresences.bit(),
        INTENTS_ALL
    );
}
