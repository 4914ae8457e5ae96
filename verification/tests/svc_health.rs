//! The health server.

use kumo_userland::svc_health::{serve, Health, Request, Response, Transport, OP_STATUS_OK};
use std::collections::VecDeque;

struct Mock {
    incoming: VecDeque<Vec<u8>>,
    sent: Vec<Vec<u8>>,
}
impl Transport for Mock {
    fn recv(&mut self, buf: &mut [u8]) -> Option<usize> {
        let frame = self.incoming.pop_front()?;
        buf[..frame.len()].copy_from_slice(&frame);
        Some(frame.len())
    }
    fn send(&mut self, frame: &[u8]) {
        self.sent.push(frame.to_vec());
    }
}

#[test]
fn ping_round_trips() {
    let mut h = Health::new();
    let reply = h.dispatch(&Request::Ping.encode());
    assert_eq!(Response::decode(&reply), Some(Response::Pong));
}

#[test]
fn status_reports_and_increments_served() {
    let mut h = Health::new();
    h.tick(42);
    let _ = h.dispatch(&Request::Ping.encode()); // served -> 1
    let reply = h.dispatch(&Request::Status.encode()); // served -> 2
    assert_eq!(
        Response::decode(&reply),
        Some(Response::Status {
            uptime_ticks: 42,
            served: 2,
        })
    );
}

#[test]
fn request_opcodes_round_trip() {
    for req in [Request::Ping, Request::Status, Request::Shutdown] {
        assert_eq!(Request::decode(&req.encode()), Some(req));
    }
}

#[test]
fn shutdown_ends_serve_loop_without_replying() {
    // Ping is served; then Shutdown stops the loop. The Status queued *after* Shutdown
    // must never be served — the loop exits on Shutdown, not on transport drain.
    let mut m = Mock {
        incoming: VecDeque::from([
            Request::Ping.encode(),
            Request::Shutdown.encode(),
            Request::Status.encode(),
        ]),
        sent: Vec::new(),
    };
    serve(&mut m);

    assert_eq!(m.sent.len(), 1, "only Ping replies; Shutdown sends nothing");
    assert_eq!(Response::decode(&m.sent[0]), Some(Response::Pong));
}

#[test]
fn malformed_request_yields_error_not_panic() {
    let mut h = Health::new();
    assert_eq!(Response::decode(&h.dispatch(&[])), Some(Response::Error));
    assert_eq!(
        Response::decode(&h.dispatch(&[0x77])),
        Some(Response::Error)
    );
}

#[test]
fn status_wire_format_round_trips() {
    let r = Response::Status {
        uptime_ticks: 0xDEAD_BEEF,
        served: 7,
    };
    assert_eq!(Response::decode(&r.encode()), Some(r));
}

#[test]
fn truncated_status_decodes_to_none() {
    // A STATUS_OK opcode without the full 16-byte payload must not panic.
    assert_eq!(Response::decode(&[OP_STATUS_OK, 0, 0]), None);
}

#[test]
fn end_to_end_ping_then_status_over_transport() {
    let mut m = Mock {
        incoming: VecDeque::from([Request::Ping.encode(), Request::Status.encode()]),
        sent: Vec::new(),
    };
    serve(&mut m); // runs until the transport drains (recv -> None)

    assert_eq!(m.sent.len(), 2);
    assert_eq!(Response::decode(&m.sent[0]), Some(Response::Pong));
    assert_eq!(
        Response::decode(&m.sent[1]),
        Some(Response::Status {
            uptime_ticks: 0,
            served: 2,
        })
    );
}

#[test]
fn malformed_requests_are_not_counted_as_served() {
    let mut h = Health::new();
    let _ = h.dispatch(&[0x77]);
    let reply = h.dispatch(&Request::Status.encode());
    assert_eq!(
        reply,
        vec![OP_STATUS_OK, 0, 0, 0, 0, 0, 0, 0, 0, 1, 0, 0, 0, 0, 0, 0, 0]
    );
}
