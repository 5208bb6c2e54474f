use shape_pipeline::channel::{ChannelMessage, ShapeChannel, QUEUE_CAP};
use shape_pipeline::shape::{Point, Shape, Size};
use shape_pipeline::web::{
    default_timeouts, exchange_decision, handle_request, response_bytes, split_request,
    startup_step, ExchangeEvent, LoopDecision, Method, Response, StartupAction, StartupPhase,
    LISTEN_PORT, REQUEST_BUFFER_SIZE, STARTUP_POLL_INTERVAL_MS,
};

fn path(p: &str) -> Vec<u8> {
    p.as_bytes().to_vec()
}

#[test]
fn scenario_one_triangle_published() {
    let mut ch = ShapeChannel::new();
    let sub = ch.subscribe().unwrap();
    let body =
        b"{\"Triangle\":{\"a\":{\"x\":0,\"y\":0},\"b\":{\"x\":1,\"y\":0},\"c\":{\"x\":0,\"y\":1}}}"
            .to_vec();
    let r = handle_request(&mut ch, Method::Post, &path("/shape"), &body);
    assert_eq!(r.status, 200);
    assert_eq!(r.body, "hello shape!");
    assert!(r.connection_close);
    // Exactly one triangle with those coordinates reaches the subscriber.
    let expected = Shape::Triangle {
        a: Point { x: 0, y: 0 },
        b: Point { x: 1, y: 0 },
        c: Point { x: 0, y: 1 },
    };
    assert_eq!(ch.try_next(sub), Some(ChannelMessage::Message(expected)));
    assert_eq!(ch.try_next(sub), None);
}

#[test]
fn scenario_batch_in_order() {
    let mut ch = ShapeChannel::new();
    let sub = ch.subscribe().unwrap();
    let body = b"[{\"Triangle\":{\"a\":{\"x\":0,\"y\":0},\"b\":{\"x\":1,\"y\":0},\"c\":{\"x\":0,\"y\":1}}},{\"Ellipse\":{\"top_left\":{\"x\":2,\"y\":3},\"size\":{\"x\":4,\"y\":5}}}]".to_vec();
    let r = handle_request(&mut ch, Method::Post, &path("/shapes"), &body);
    assert_eq!(r.status, 200);
    assert_eq!(r.body, "hello shape!");
    let first = Shape::Triangle {
        a: Point { x: 0, y: 0 },
        b: Point { x: 1, y: 0 },
        c: Point { x: 0, y: 1 },
    };
    let second = Shape::Ellipse {
        top_left: Point { x: 2, y: 3 },
        size: Size { x: 4, y: 5 },
    };
    assert_eq!(ch.try_next(sub), Some(ChannelMessage::Message(first)));
    assert_eq!(ch.try_next(sub), Some(ChannelMessage::Message(second)));
    assert_eq!(ch.try_next(sub), None);
}

#[test]
fn scenario_greeting_regardless_of_state() {
    // A fresh channel.
    let mut ch = ShapeChannel::new();
    let r = handle_request(&mut ch, Method::Get, &path("/"), &Vec::new());
    assert_eq!(r.status, 200);
    assert_eq!(r.body, "hello world!");
    assert!(r.connection_close);
    // A channel with a lagging subscriber answers the same.
    let sub = ch.subscribe().unwrap();
    for n in 0..(QUEUE_CAP + 4) {
        ch.publish(Shape::Ellipse {
            top_left: Point { x: n as i32, y: 0 },
            size: Size { x: 1, y: 1 },
        });
    }
    let r = handle_request(&mut ch, Method::Get, &path("/"), &Vec::new());
    assert_eq!(r.status, 200);
    assert_eq!(r.body, "hello world!");
    assert!(r.connection_close);
    // The greeting touched nothing: the lag is still there.
    assert_eq!(ch.try_next(sub), Some(ChannelMessage::Lag(4)));
}

#[test]
fn scenario_read_timeout_closes_silently() {
    // A request that exceeds the read timeout mid-body is abandoned with
    // no response, and the loop accepts the next connection normally.
    assert_eq!(
        exchange_decision(ExchangeEvent::ReadTimedOut),
        LoopDecision::AbortConnection
    );
    // The next pass serves as usual.
    let mut ch = ShapeChannel::new();
    let r = handle_request(&mut ch, Method::Get, &path("/"), &Vec::new());
    assert_eq!(r.status, 200);
}

#[test]
fn malformed_shape_answers_400() {
    let mut ch = ShapeChannel::new();
    let sub = ch.subscribe().unwrap();
    let r = handle_request(
        &mut ch,
        Method::Post,
        &path("/shape"),
        &b"{not json".to_vec(),
    );
    assert_eq!(r.status, 400);
    assert!(!r.body.is_empty());
    // Nothing was published.
    assert_eq!(ch.try_next(sub), None);
}

#[test]
fn malformed_batch_answers_400() {
    let mut ch = ShapeChannel::new();
    let r = handle_request(&mut ch, Method::Post, &path("/shapes"), &b"[{]".to_vec());
    assert_eq!(r.status, 400);
    assert!(!r.body.is_empty());
}

#[test]
fn unknown_routes_answer_404() {
    let mut ch = ShapeChannel::new();
    for (m, p) in [
        (Method::Get, "/nope"),
        (Method::Get, "/shape"),
        (Method::Post, "/"),
        (Method::Post, "/shape/extra"),
    ] {
        let r = handle_request(&mut ch, m, &path(p), &Vec::new());
        assert_eq!(r.status, 404, "{:?} {}", m, p);
        assert_eq!(r.body, "not found");
    }
}

#[test]
fn wire_form_of_greeting() {
    let r = Response {
        status: 200,
        connection_close: true,
        body: "hello world!".to_owned(),
    };
    let bytes = response_bytes(&r);
    assert_eq!(
        String::from_utf8(bytes).unwrap(),
        "HTTP/1.1 200 OK\r\nConnection: Close\r\nContent-Length: 12\r\n\r\nhello world!"
    );
}

#[test]
fn wire_form_carries_status_reason() {
    let r = Response {
        status: 400,
        connection_close: true,
        body: "bad".to_owned(),
    };
    let text = String::from_utf8(response_bytes(&r)).unwrap();
    assert!(text.starts_with("HTTP/1.1 400 Bad Request\r\n"));
    assert!(text.contains("Connection: Close"));
    assert!(text.ends_with("\r\n\r\nbad"));
}

#[test]
fn startup_gate_polls_then_proceeds() {
    let (p, a) = startup_step(StartupPhase::AwaitingLink, false, false);
    assert_eq!((p, a), (StartupPhase::AwaitingLink, StartupAction::SleepPoll));
    let (p, a) = startup_step(StartupPhase::AwaitingLink, true, false);
    assert_eq!((p, a), (StartupPhase::AwaitingAddress, StartupAction::Proceed));
    let (p, a) = startup_step(StartupPhase::AwaitingAddress, true, false);
    assert_eq!(
        (p, a),
        (StartupPhase::AwaitingAddress, StartupAction::SleepPoll)
    );
    let (p, a) = startup_step(StartupPhase::AwaitingAddress, true, true);
    assert_eq!((p, a), (StartupPhase::Ready, StartupAction::Proceed));
    let (p, a) = startup_step(StartupPhase::Ready, true, true);
    assert_eq!((p, a), (StartupPhase::Ready, StartupAction::Proceed));
}

#[test]
fn loop_decisions() {
    assert_eq!(
        exchange_decision(ExchangeEvent::AcceptFailed),
        LoopDecision::ListenAgain
    );
    assert_eq!(
        exchange_decision(ExchangeEvent::StartReadTimedOut),
        LoopDecision::AbortConnection
    );
    assert_eq!(
        exchange_decision(ExchangeEvent::RequestUnreadable),
        LoopDecision::AbortConnection
    );
    assert_eq!(
        exchange_decision(ExchangeEvent::WriteTimedOut),
        LoopDecision::AbortConnection
    );
    assert_eq!(
        exchange_decision(ExchangeEvent::Completed),
        LoopDecision::CloseConnection
    );
}

#[test]
fn split_request_get() {
    let raw = b"GET / HTTP/1.1\r\nHost: x\r\n\r\n".to_vec();
    let (m, p, b) = split_request(&raw).unwrap();
    assert_eq!(m, Method::Get);
    assert_eq!(p, b"/".to_vec());
    assert!(b.is_empty());
}

#[test]
fn split_request_post_with_body() {
    let raw = b"POST /shape HTTP/1.1\r\nContent-Length: 4\r\n\r\nbody".to_vec();
    let (m, p, b) = split_request(&raw).unwrap();
    assert_eq!(m, Method::Post);
    assert_eq!(p, b"/shape".to_vec());
    assert_eq!(b, b"body".to_vec());
}

#[test]
fn split_request_rejects_garbage() {
    let bad: [&[u8]; 4] = [
        b"",
        b"PUT /shape HTTP/1.1\r\n\r\n",
        b"GET /missing-blank-line HTTP/1.1\r\n",
        b"NOSPACES",
    ];
    for case in bad {
        assert!(split_request(&case.to_vec()).is_none());
    }
}

#[test]
fn raw_request_to_wire_response() {
    // A whole exchange through the verified pieces: raw bytes in, wire
    // bytes out, shape delivered.
    let mut ch = ShapeChannel::new();
    let sub = ch.subscribe().unwrap();
    let raw = b"POST /shape HTTP/1.1\r\nHost: device\r\n\r\n{\"Ellipse\":{\"top_left\":{\"x\":1,\"y\":2},\"size\":{\"x\":3,\"y\":4}}}".to_vec();
    let (m, p, b) = split_request(&raw).unwrap();
    let resp = handle_request(&mut ch, m, &p, &b);
    let wire = String::from_utf8(response_bytes(&resp)).unwrap();
    assert_eq!(
        wire,
        "HTTP/1.1 200 OK\r\nConnection: Close\r\nContent-Length: 12\r\n\r\nhello shape!"
    );
    let expected = Shape::Ellipse {
        top_left: Point { x: 1, y: 2 },
        size: Size { x: 3, y: 4 },
    };
    assert_eq!(ch.try_next(sub), Some(ChannelMessage::Message(expected)));
}

#[test]
fn fixed_parameters() {
    let t = default_timeouts();
    assert_eq!(t.start_read_ms, 5000);
    assert_eq!(t.read_ms, 1000);
    assert_eq!(t.write_ms, 1000);
    assert_eq!(LISTEN_PORT, 80);
    assert_eq!(REQUEST_BUFFER_SIZE, 2048);
    assert_eq!(STARTUP_POLL_INTERVAL_MS, 500);
}
