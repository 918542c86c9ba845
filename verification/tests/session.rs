use realtime_stt::{
    Frame, Inbound, Polled, RealtimeClient, ServerMsg, SessionError, SessionState, StartCfg,
};

fn cfg() -> StartCfg {
    StartCfg { language: None, task: "transcribe".to_string(), beam_size: 5 }
}

fn text(payload: &str) -> Inbound {
    Inbound::Text(payload.to_string())
}

fn streaming() -> RealtimeClient {
    let mut client = RealtimeClient::connect("ws://localhost:9000/stream", cfg());
    client.established().unwrap();
    client.handshake_sent().unwrap();
    client
}

#[test]
fn a_new_session_is_connecting() {
    let mut client = RealtimeClient::connect("ws://localhost:9000/stream", cfg());
    assert_eq!(client.url(), "ws://localhost:9000/stream");
    assert_eq!(client.state(), SessionState::Connecting);
    assert_eq!(client.next_msg(), Polled::Pending);
}

#[test]
fn establishing_hands_out_the_handshake_once() {
    let mut client = RealtimeClient::connect("ws://localhost:9000/stream", cfg());
    assert_eq!(
        client.established(),
        Ok(Frame::Text("{\"language\":null,\"task\":\"transcribe\",\"beam_size\":5}".to_string()))
    );
    assert_eq!(client.state(), SessionState::Handshaking);
    assert_eq!(client.established(), Err(SessionError::State));
    assert_eq!(client.state(), SessionState::Handshaking);
}

#[test]
fn the_handshake_carries_the_configuration() {
    let mut client = RealtimeClient::connect(
        "wss://speech.example/v1",
        StartCfg { language: Some("en".to_string()), task: "translate".to_string(), beam_size: 12 },
    );
    assert_eq!(client.url(), "wss://speech.example/v1");
    assert_eq!(
        client.established(),
        Ok(Frame::Text("{\"language\":\"en\",\"task\":\"translate\",\"beam_size\":12}".to_string()))
    );
}

#[test]
fn streaming_starts_when_the_handshake_is_written() {
    let mut client = RealtimeClient::connect("ws://localhost:9000/stream", cfg());
    assert_eq!(client.handshake_sent(), Err(SessionError::State));
    assert_eq!(client.state(), SessionState::Connecting);
    client.established().unwrap();
    assert_eq!(client.handshake_sent(), Ok(()));
    assert_eq!(client.state(), SessionState::Streaming);
    assert_eq!(client.handshake_sent(), Err(SessionError::State));
    assert_eq!(client.state(), SessionState::Streaming);
}

#[test]
fn no_audio_before_the_handshake_is_written() {
    let mut client = RealtimeClient::connect("ws://localhost:9000/stream", cfg());
    assert_eq!(client.send_pcm16(&[1, 2, 3]), Err(SessionError::State));
    assert_eq!(client.state(), SessionState::Connecting);
    client.established().unwrap();
    assert_eq!(client.send_pcm16(&[1, 2, 3]), Err(SessionError::State));
    assert_eq!(client.state(), SessionState::Handshaking);
    client.handshake_sent().unwrap();
    assert_eq!(client.send_pcm16(&[1, 2, 3]), Ok(Frame::Binary(vec![1, 0, 2, 0, 3, 0])));
}

#[test]
fn each_chunk_is_one_binary_frame_in_order() {
    let mut client = streaming();
    let chunks: Vec<Vec<i16>> = vec![vec![1, 2], vec![], vec![-1], vec![256, 257, 258]];
    let mut frames = Vec::new();
    for chunk in &chunks {
        frames.push(client.send_pcm16(chunk).unwrap());
    }
    assert_eq!(
        frames,
        vec![
            Frame::Binary(vec![1, 0, 2, 0]),
            Frame::Binary(vec![]),
            Frame::Binary(vec![0xff, 0xff]),
            Frame::Binary(vec![0, 1, 1, 1, 2, 1]),
        ]
    );
    assert_eq!(client.state(), SessionState::Streaming);
}

#[test]
fn stop_hands_out_the_stop_message() {
    let mut client = streaming();
    assert_eq!(client.stop(), Ok(Frame::Text("{\"type\":\"stop\"}".to_string())));
    assert_eq!(client.state(), SessionState::Stopping);
}

#[test]
fn stop_is_valid_while_streaming_only() {
    let mut client = RealtimeClient::connect("ws://localhost:9000/stream", cfg());
    assert_eq!(client.stop(), Err(SessionError::State));
    client.established().unwrap();
    assert_eq!(client.stop(), Err(SessionError::State));
    assert_eq!(client.state(), SessionState::Handshaking);
    client.handshake_sent().unwrap();
    assert!(client.stop().is_ok());
    assert_eq!(client.stop(), Err(SessionError::State));
    assert_eq!(client.state(), SessionState::Stopping);
}

#[test]
fn stop_on_a_closed_session_is_a_transport_error() {
    let mut client = streaming();
    client.transport_failed();
    assert_eq!(client.stop(), Err(SessionError::Transport));
    assert_eq!(client.state(), SessionState::Closed);
}

#[test]
fn no_audio_after_stop() {
    let mut client = streaming();
    client.stop().unwrap();
    assert_eq!(client.send_pcm16(&[0; 4]), Err(SessionError::State));
    assert_eq!(client.state(), SessionState::Stopping);
}

#[test]
fn no_audio_on_a_closed_session() {
    let mut client = streaming();
    assert_eq!(client.transport_failed(), SessionError::Transport);
    assert_eq!(client.state(), SessionState::Closed);
    assert_eq!(client.send_pcm16(&[0; 4]), Err(SessionError::State));
    assert_eq!(client.established(), Err(SessionError::State));
    assert_eq!(client.handshake_sent(), Err(SessionError::State));
}

#[test]
fn a_failed_connect_is_a_connection_error() {
    let mut client = RealtimeClient::connect("ws://localhost:9000/stream", cfg());
    assert_eq!(client.transport_failed(), SessionError::Connection);
    assert_eq!(client.state(), SessionState::Closed);
    assert_eq!(client.established(), Err(SessionError::State));
    assert_eq!(client.next_msg(), Polled::Ready(None));
}

#[test]
fn a_failure_closes_from_every_state() {
    let mut handshaking = RealtimeClient::connect("ws://localhost:9000/stream", cfg());
    handshaking.established().unwrap();
    assert_eq!(handshaking.transport_failed(), SessionError::Transport);
    assert_eq!(handshaking.state(), SessionState::Closed);

    let mut stopping = streaming();
    stopping.stop().unwrap();
    assert_eq!(stopping.transport_failed(), SessionError::Transport);
    assert_eq!(stopping.state(), SessionState::Closed);

    let mut closed = streaming();
    closed.transport_failed();
    assert_eq!(closed.transport_failed(), SessionError::Transport);
    assert_eq!(closed.state(), SessionState::Closed);
}

#[test]
fn messages_arrive_in_order() {
    let mut client = streaming();
    assert!(client.receive(text("{\"type\":\"partial\",\"text\":\"he\"}")));
    assert!(client.receive(text("{\"type\":\"partial\",\"text\":\"hello\"}")));
    assert!(client.receive(text("{\"type\":\"final\",\"text\":\"hello world\"}")));
    assert_eq!(
        client.next_msg(),
        Polled::Ready(Some(Ok(ServerMsg::Partial { text: "he".to_string() })))
    );
    assert_eq!(
        client.next_msg(),
        Polled::Ready(Some(Ok(ServerMsg::Partial { text: "hello".to_string() })))
    );
    assert_eq!(
        client.next_msg(),
        Polled::Ready(Some(Ok(ServerMsg::Final { text: "hello world".to_string() })))
    );
    assert_eq!(client.next_msg(), Polled::Pending);
    assert_eq!(client.state(), SessionState::Streaming);
}

#[test]
fn frames_that_are_not_text_are_skipped() {
    let mut client = streaming();
    client.receive(Inbound::Other);
    client.receive(Inbound::Other);
    client.receive(text("{\"type\":\"final\",\"text\":\"x\"}"));
    client.receive(Inbound::Other);
    assert_eq!(
        client.next_msg(),
        Polled::Ready(Some(Ok(ServerMsg::Final { text: "x".to_string() })))
    );
    assert_eq!(client.next_msg(), Polled::Pending);
    assert_eq!(client.next_msg(), Polled::Pending);
}

#[test]
fn a_malformed_payload_is_one_parse_error_and_the_session_goes_on() {
    let mut client = streaming();
    client.receive(text("{\"type\":\"unknown\"}"));
    client.receive(text("{\"type\":\"partial\",\"text\":\"still here\"}"));
    assert_eq!(client.next_msg(), Polled::Ready(Some(Err(SessionError::Parse))));
    assert_eq!(client.state(), SessionState::Streaming);
    assert_eq!(
        client.next_msg(),
        Polled::Ready(Some(Ok(ServerMsg::Partial { text: "still here".to_string() })))
    );
    assert_eq!(client.send_pcm16(&[7]), Ok(Frame::Binary(vec![7, 0])));
}

#[test]
fn invalid_json_is_one_parse_error_and_the_session_goes_on() {
    let mut client = streaming();
    client.receive(text("not json at all"));
    assert_eq!(client.next_msg(), Polled::Ready(Some(Err(SessionError::Parse))));
    assert_eq!(client.next_msg(), Polled::Pending);
    client.receive(text("{\"type\":\"final\",\"text\":\"ok\"}"));
    assert_eq!(
        client.next_msg(),
        Polled::Ready(Some(Ok(ServerMsg::Final { text: "ok".to_string() })))
    );
}

#[test]
fn a_clean_close_ends_the_stream_without_an_error() {
    let mut client = streaming();
    assert!(client.receive(Inbound::End));
    assert_eq!(client.state(), SessionState::Closed);
    assert_eq!(client.next_msg(), Polled::Ready(None));
    assert_eq!(client.next_msg(), Polled::Ready(None));
}

#[test]
fn a_clean_close_after_messages_delivers_them_first() {
    let mut client = streaming();
    client.receive(text("{\"type\":\"partial\",\"text\":\"a\"}"));
    client.receive(Inbound::Other);
    client.receive(text("{\"type\":\"final\",\"text\":\"b\"}"));
    client.receive(Inbound::End);
    assert_eq!(
        client.next_msg(),
        Polled::Ready(Some(Ok(ServerMsg::Partial { text: "a".to_string() })))
    );
    assert_eq!(
        client.next_msg(),
        Polled::Ready(Some(Ok(ServerMsg::Final { text: "b".to_string() })))
    );
    assert_eq!(client.next_msg(), Polled::Ready(None));
    assert_eq!(client.next_msg(), Polled::Ready(None));
    assert_eq!(client.state(), SessionState::Closed);
}

#[test]
fn a_failed_read_is_one_transport_error_and_then_the_end() {
    let mut client = streaming();
    client.receive(text("{\"type\":\"partial\",\"text\":\"a\"}"));
    assert!(client.receive(Inbound::Failed));
    assert_eq!(client.state(), SessionState::Closed);
    assert_eq!(
        client.next_msg(),
        Polled::Ready(Some(Ok(ServerMsg::Partial { text: "a".to_string() })))
    );
    assert_eq!(client.next_msg(), Polled::Ready(Some(Err(SessionError::Transport))));
    assert_eq!(client.next_msg(), Polled::Ready(None));
    assert_eq!(client.send_pcm16(&[1]), Err(SessionError::State));
}

#[test]
fn nothing_is_taken_in_after_the_end() {
    let mut client = streaming();
    client.receive(Inbound::End);
    assert!(!client.receive(text("{\"type\":\"final\",\"text\":\"late\"}")));
    assert!(!client.receive(Inbound::Failed));
    assert_eq!(client.next_msg(), Polled::Ready(None));
    assert_eq!(client.next_msg(), Polled::Ready(None));
}

#[test]
fn nothing_is_taken_in_before_the_transport_is_up() {
    let mut client = RealtimeClient::connect("ws://localhost:9000/stream", cfg());
    assert!(!client.receive(text("{\"type\":\"final\",\"text\":\"early\"}")));
    assert!(!client.receive(Inbound::End));
    assert_eq!(client.state(), SessionState::Connecting);
    assert_eq!(client.next_msg(), Polled::Pending);
}

#[test]
fn buffered_messages_survive_a_failed_write() {
    let mut client = streaming();
    client.receive(text("{\"type\":\"final\",\"text\":\"kept\"}"));
    client.transport_failed();
    assert_eq!(
        client.next_msg(),
        Polled::Ready(Some(Ok(ServerMsg::Final { text: "kept".to_string() })))
    );
    assert_eq!(client.next_msg(), Polled::Ready(None));
}

#[test]
fn stop_then_drain_ends_cleanly() {
    let mut client = streaming();
    client.send_pcm16(&[0; 8]).unwrap();
    client.receive(text("{\"type\":\"partial\",\"text\":\"so\"}"));
    client.stop().unwrap();
    client.receive(text("{\"type\":\"partial\",\"text\":\"so far\"}"));
    client.receive(text("{\"type\":\"final\",\"text\":\"so far so good\"}"));
    client.receive(Inbound::End);
    let mut seen = Vec::new();
    loop {
        match client.next_msg() {
            Polled::Ready(Some(Ok(msg))) => seen.push(msg),
            Polled::Ready(Some(Err(e))) => panic!("unexpected error {:?}", e),
            Polled::Ready(None) => break,
            Polled::Pending => panic!("the stream was left open"),
        }
    }
    assert_eq!(
        seen,
        vec![
            ServerMsg::Partial { text: "so".to_string() },
            ServerMsg::Partial { text: "so far".to_string() },
            ServerMsg::Final { text: "so far so good".to_string() },
        ]
    );
    assert_eq!(client.state(), SessionState::Closed);
}

#[test]
fn stop_then_immediate_close_delivers_nothing() {
    let mut client = streaming();
    client.stop().unwrap();
    client.receive(Inbound::End);
    assert_eq!(client.next_msg(), Polled::Ready(None));
    assert_eq!(client.state(), SessionState::Closed);
}

#[test]
fn one_frame_of_silence_then_stop() {
    let mut client = RealtimeClient::connect("ws://localhost:9000/stream", cfg());
    let mut wire: Vec<Frame> = Vec::new();
    wire.push(client.established().unwrap());
    client.handshake_sent().unwrap();
    wire.push(client.send_pcm16(&[0i16; 320]).unwrap());
    wire.push(client.stop().unwrap());
    assert_eq!(
        wire,
        vec![
            Frame::Text("{\"language\":null,\"task\":\"transcribe\",\"beam_size\":5}".to_string()),
            Frame::Binary(vec![0u8; 640]),
            Frame::Text("{\"type\":\"stop\"}".to_string()),
        ]
    );
    assert_eq!(client.next_msg(), Polled::Pending);
    client.receive(text("{\"type\":\"final\",\"text\":\"\"}"));
    client.receive(Inbound::End);
    assert_eq!(client.next_msg(), Polled::Ready(Some(Ok(ServerMsg::Final { text: String::new() }))));
    assert_eq!(client.next_msg(), Polled::Ready(None));
    assert_eq!(client.state(), SessionState::Closed);
}
