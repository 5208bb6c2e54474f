//! The ingestion server's logic: the startup gate, the route table, and
//! the per-connection loop decisions.
//!
//! The server serves one connection at a time.  A driving loop owns the
//! sockets and timers; this module owns every decision: when the accept
//! loop may start, how a request is answered, what each shape payload
//! does to the channel, and what happens to a connection whose exchange
//! fails or times out.

use vstd::prelude::*;

use crate::channel::channel_wf;
use crate::channel::spec_publish;
use crate::channel::ChannelView;
use crate::channel::ShapeChannel;
use crate::codec::dec_digits;
use crate::codec::push_u64_dec;
use vstd::utf8::encode_utf8;
use crate::codec::shape_error_text;
use crate::codec::shape_of_json;
use crate::codec::shapes_error_text;
use crate::codec::shapes_of_json;
use crate::shape::Shape;
use crate::shape::ShapeError;
use crate::shape::Shapes;
use vstd::string::StrSliceExecFns;
use vstd::string::StringSliceAdditionalSpecFns;

verus! {

/// TCP port the server listens on.
pub const LISTEN_PORT: u16 = 80;

/// Size of the per-connection request buffer; longer requests are a
/// transport error.
pub const REQUEST_BUFFER_SIZE: usize = 2048;

/// Milliseconds between polls of the link and address status during
/// startup.
pub const STARTUP_POLL_INTERVAL_MS: u64 = 500;

/// The request methods the route table distinguishes.
#[derive(Clone, Copy, Debug, PartialEq, Eq, Structural)]
pub enum Method {
    Get,
    Post,
}

/// A response: its status code, whether the connection closes after it,
/// and its body.
#[derive(Debug, PartialEq)]
pub struct Response {
    pub status: u16,
    pub connection_close: bool,
    pub body: String,
}

/// The three timeouts bounding one request/response exchange, in
/// milliseconds.
#[derive(Clone, Copy, Debug, PartialEq, Eq, Structural)]
pub struct TimeoutConfig {
    pub start_read_ms: u64,
    pub read_ms: u64,
    pub write_ms: u64,
}

/// The timeouts the server runs with: 5 s to begin receiving a request,
/// 1 s to finish reading it, 1 s to finish writing the response.
pub fn default_timeouts() -> (t: TimeoutConfig)
    ensures
        t.start_read_ms == 5000,
        t.read_ms == 1000,
        t.write_ms == 1000,
{
    TimeoutConfig { start_read_ms: 5000, read_ms: 1000, write_ms: 1000 }
}

// ---------------------------------------------------------------------------
// Startup gate
// ---------------------------------------------------------------------------

/// Where the server stands before it may accept connections.
#[derive(Clone, Copy, Debug, PartialEq, Eq, Structural)]
pub enum StartupPhase {
    /// Waiting for the link to come up.
    AwaitingLink,
    /// Waiting for an address to be assigned.
    AwaitingAddress,
    /// Both are there; the accept loop may run.
    Ready,
}

/// What the startup gate asks the driver to do next.
#[derive(Clone, Copy, Debug, PartialEq, Eq, Structural)]
pub enum StartupAction {
    /// Sleep one poll interval, then poll again.
    SleepPoll,
    /// Move on without waiting.
    Proceed,
}

/// The startup gate's transition table: poll the link until it is up,
/// then poll for an address, then stay ready.
pub open spec fn spec_startup_step(phase: StartupPhase, link_up: bool, has_address: bool) -> (
    StartupPhase,
    StartupAction,
) {
    match phase {
        StartupPhase::AwaitingLink => if link_up {
            (StartupPhase::AwaitingAddress, StartupAction::Proceed)
        } else {
            (StartupPhase::AwaitingLink, StartupAction::SleepPoll)
        },
        StartupPhase::AwaitingAddress => if has_address {
            (StartupPhase::Ready, StartupAction::Proceed)
        } else {
            (StartupPhase::AwaitingAddress, StartupAction::SleepPoll)
        },
        StartupPhase::Ready => (StartupPhase::Ready, StartupAction::Proceed),
    }
}

/// Advance the startup gate by one poll of the link status.
pub fn startup_step(phase: StartupPhase, link_up: bool, has_address: bool) -> (r: (
    StartupPhase,
    StartupAction,
))
    ensures
        r == spec_startup_step(phase, link_up, has_address),
{
    match phase {
        StartupPhase::AwaitingLink => if link_up {
            (StartupPhase::AwaitingAddress, StartupAction::Proceed)
        } else {
            (StartupPhase::AwaitingLink, StartupAction::SleepPoll)
        },
        StartupPhase::AwaitingAddress => if has_address {
            (StartupPhase::Ready, StartupAction::Proceed)
        } else {
            (StartupPhase::AwaitingAddress, StartupAction::SleepPoll)
        },
        StartupPhase::Ready => (StartupPhase::Ready, StartupAction::Proceed),
    }
}

// ---------------------------------------------------------------------------
// Per-connection loop decisions
// ---------------------------------------------------------------------------

/// How one pass of the accept loop ended.
#[derive(Clone, Copy, Debug, PartialEq, Eq, Structural)]
pub enum ExchangeEvent {
    /// Accepting a connection failed; no connection was opened.
    AcceptFailed,
    /// No request began arriving within the start-read timeout.
    StartReadTimedOut,
    /// A request began arriving but was not complete within the read
    /// timeout.
    ReadTimedOut,
    /// What arrived was not a request this server reads.
    RequestUnreadable,
    /// The response could not be written within the write timeout.
    WriteTimedOut,
    /// The exchange completed and the response was delivered.
    Completed,
}

/// What the accept loop does next.  Every decision returns to listening:
/// a failed or timed-out connection is abandoned, never fatal.
#[derive(Clone, Copy, Debug, PartialEq, Eq, Structural)]
pub enum LoopDecision {
    /// Nothing to close; listen for the next connection.
    ListenAgain,
    /// Close the connection without sending anything further, then
    /// listen for the next connection.
    AbortConnection,
    /// Close the connection normally, then listen for the next
    /// connection.
    CloseConnection,
}

/// The decision table for the end of one accept-loop pass.  A timeout
/// before or during the request read closes the connection with no
/// response sent; the loop always continues.
pub open spec fn spec_exchange_decision(ev: ExchangeEvent) -> LoopDecision {
    match ev {
        ExchangeEvent::AcceptFailed => LoopDecision::ListenAgain,
        ExchangeEvent::StartReadTimedOut => LoopDecision::AbortConnection,
        ExchangeEvent::ReadTimedOut => LoopDecision::AbortConnection,
        ExchangeEvent::RequestUnreadable => LoopDecision::AbortConnection,
        ExchangeEvent::WriteTimedOut => LoopDecision::AbortConnection,
        ExchangeEvent::Completed => LoopDecision::CloseConnection,
    }
}

/// Decide what the accept loop does after one pass.
pub fn exchange_decision(ev: ExchangeEvent) -> (d: LoopDecision)
    ensures
        d == spec_exchange_decision(ev),
{
    match ev {
        ExchangeEvent::AcceptFailed => LoopDecision::ListenAgain,
        ExchangeEvent::StartReadTimedOut => LoopDecision::AbortConnection,
        ExchangeEvent::ReadTimedOut => LoopDecision::AbortConnection,
        ExchangeEvent::RequestUnreadable => LoopDecision::AbortConnection,
        ExchangeEvent::WriteTimedOut => LoopDecision::AbortConnection,
        ExchangeEvent::Completed => LoopDecision::CloseConnection,
    }
}

// ---------------------------------------------------------------------------
// Routing
// ---------------------------------------------------------------------------

/// The bytes of the path `/`.
pub open spec fn path_root() -> Seq<u8> {
    seq![47u8]
}

/// The bytes of the path `/shape`.
pub open spec fn path_shape() -> Seq<u8> {
    seq![47u8, 115, 104, 97, 112, 101]
}

/// The bytes of the path `/shapes`.
pub open spec fn path_shapes() -> Seq<u8> {
    seq![47u8, 115, 104, 97, 112, 101, 115]
}

/// The greeting served at `GET /`.
pub open spec fn greeting_text() -> Seq<char> {
    "hello world!"@
}

/// The confirmation served after a published shape or batch.
pub open spec fn shape_ack_text() -> Seq<char> {
    "hello shape!"@
}

/// The body served when no route matches.
pub open spec fn not_found_text() -> Seq<char> {
    "not found"@
}

fn bytes_eq(a: &Vec<u8>, b: &Vec<u8>) -> (r: bool)
    ensures
        r == (a@ == b@),
{
    if a.len() != b.len() {
        proof {
            assert(a@ != b@);
        }
        return false;
    }
    let n = a.len();
    let mut k: usize = 0;
    while k < n
        invariant
            0 <= k <= n,
            n == a@.len(),
            n == b@.len(),
            forall|m: int| 0 <= m < k ==> a@[m] == b@[m],
        decreases n - k,
    {
        if a[k] != b[k] {
            proof {
                assert(a@[k as int] != b@[k as int]);
            }
            return false;
        }
        k = k + 1;
    }
    proof {
        assert(a@ =~= b@);
    }
    true
}

fn path_root_vec() -> (v: Vec<u8>)
    ensures
        v@ == path_root(),
{
    let mut v: Vec<u8> = Vec::new();
    v.push(47);
    proof {
        assert(v@ =~= path_root());
    }
    v
}

fn path_shape_vec() -> (v: Vec<u8>)
    ensures
        v@ == path_shape(),
{
    let mut v: Vec<u8> = Vec::new();
    v.push(47);
    v.push(115);
    v.push(104);
    v.push(97);
    v.push(112);
    v.push(101);
    proof {
        assert(v@ =~= path_shape());
    }
    v
}

fn path_shapes_vec() -> (v: Vec<u8>)
    ensures
        v@ == path_shapes(),
{
    let mut v = path_shape_vec();
    v.push(115);
    proof {
        assert(v@ =~= path_shapes());
    }
    v
}

/// A sequence of publishes, oldest first, as seen by the whole channel.
pub open spec fn spec_publish_all(v: ChannelView, shapes: Seq<Shape>) -> ChannelView
    decreases shapes.len(),
{
    if shapes.len() == 0 {
        v
    } else {
        spec_publish_all(spec_publish(v, shapes[0]), shapes.drop_first())
    }
}

fn publish_all(ch: &mut ShapeChannel, shapes: &Vec<Shape>)
    requires
        channel_wf(old(ch)@),
    ensures
        final(ch)@ == spec_publish_all(old(ch)@, shapes@),
        channel_wf(final(ch)@),
{
    let n = shapes.len();
    let mut k: usize = 0;
    proof {
        assert(shapes@.skip(0) =~= shapes@);
    }
    while k < n
        invariant
            0 <= k <= n,
            n == shapes@.len(),
            channel_wf(ch@),
            spec_publish_all(old(ch)@, shapes@) == spec_publish_all(ch@, shapes@.skip(k as int)),
        decreases n - k,
    {
        proof {
            assert(shapes@.skip(k as int)[0] == shapes@[k as int]);
            assert(shapes@.skip(k as int).drop_first() =~= shapes@.skip(k + 1));
        }
        ch.publish(shapes[k]);
        k = k + 1;
    }
    proof {
        assert(shapes@.skip(n as int) =~= Seq::<Shape>::empty());
    }
}

/// Serve one routed request.
///
/// `GET /` answers the greeting; `POST /shape` decodes one shape and
/// publishes it; `POST /shapes` decodes a batch and publishes its shapes
/// in array order; a payload that does not decode answers `400` carrying
/// the decode error's description and publishes nothing; every other
/// method and path answers `404`.  Every response closes the connection.
pub fn handle_request(ch: &mut ShapeChannel, method: Method, path: &Vec<u8>, body: &Vec<u8>) -> (r:
    Response)
    requires
        channel_wf(old(ch)@),
    ensures
        channel_wf(final(ch)@),
        r.connection_close == true,
        method == Method::Get && path@ == path_root() ==> r.status == 200 && r.body@
            == greeting_text() && final(ch)@ == old(ch)@,
        method == Method::Post && path@ == path_shape() ==> match shape_of_json(body@) {
            Some(sh) => r.status == 200 && r.body@ == shape_ack_text() && final(ch)@
                == spec_publish(old(ch)@, sh),
            None => r.status == 400 && r.body@ == shape_error_text() && final(ch)@ == old(ch)@,
        },
        method == Method::Post && path@ == path_shapes() ==> match shapes_of_json(body@) {
            Some(l) => r.status == 200 && r.body@ == shape_ack_text() && final(ch)@
                == spec_publish_all(old(ch)@, l),
            None => r.status == 400 && r.body@ == shapes_error_text() && final(ch)@ == old(ch)@,
        },
        !(method == Method::Get && path@ == path_root()) && !(method == Method::Post && path@
            == path_shape()) && !(method == Method::Post && path@ == path_shapes()) ==> r.status
            == 404 && r.body@ == not_found_text() && final(ch)@ == old(ch)@,
{
    let root = path_root_vec();
    let shape_path = path_shape_vec();
    let shapes_path = path_shapes_vec();
    proof {
        assert(path_root().len() == 1);
        assert(path_shape().len() == 6);
        assert(path_shapes().len() == 7);
    }
    match method {
        Method::Get => {
            if bytes_eq(path, &root) {
                return Response {
                    status: 200,
                    connection_close: true,
                    body: "hello world!".to_owned(),
                };
            }
        },
        Method::Post => {
            if bytes_eq(path, &shape_path) {
                match Shape::from_json(body) {
                    Ok(sh) => {
                        ch.publish(sh);
                        return Response {
                            status: 200,
                            connection_close: true,
                            body: "hello shape!".to_owned(),
                        };
                    },
                    Err(e) => {
                        let msg = match e {
                            ShapeError::DeserializationError(m) => m,
                        };
                        return Response { status: 400, connection_close: true, body: msg };
                    },
                }
            }
            if bytes_eq(path, &shapes_path) {
                match Shapes::from_json(body) {
                    Ok(bs) => {
                        let Shapes(list) = bs;
                        publish_all(ch, &list);
                        return Response {
                            status: 200,
                            connection_close: true,
                            body: "hello shape!".to_owned(),
                        };
                    },
                    Err(e) => {
                        let msg = match e {
                            ShapeError::DeserializationError(m) => m,
                        };
                        return Response { status: 400, connection_close: true, body: msg };
                    },
                }
            }
        },
    }
    Response { status: 404, connection_close: true, body: "not found".to_owned() }
}

// ---------------------------------------------------------------------------
// Wire form of a request
// ---------------------------------------------------------------------------

/// First index at or after `i` holding the byte `b`.
pub open spec fn find_byte(s: Seq<u8>, i: int, b: u8) -> Option<int>
    decreases s.len() - i,
{
    if !(0 <= i < s.len()) {
        None
    } else if s[i] == b {
        Some(i)
    } else {
        find_byte(s, i + 1, b)
    }
}

/// First index at or after `i` where a blank line (`\r\n\r\n`) begins.
pub open spec fn find_blank_line(s: Seq<u8>, i: int) -> Option<int>
    decreases s.len() - i,
{
    if !(0 <= i) || i + 4 > s.len() {
        None
    } else if s[i] == 13 && s[i + 1] == 10 && s[i + 2] == 13 && s[i + 3] == 10 {
        Some(i)
    } else {
        find_blank_line(s, i + 1)
    }
}

/// The bytes of the method name `GET`.
pub open spec fn method_get_bytes() -> Seq<u8> {
    seq![71u8, 69, 84]
}

/// The bytes of the method name `POST`.
pub open spec fn method_post_bytes() -> Seq<u8> {
    seq![80u8, 79, 83, 84]
}

/// How a raw request head splits: the method name runs to the first
/// space, the path to the next, the headers to the first blank line, and
/// the body is everything after it.  A request whose method is neither
/// `GET` nor `POST`, or that lacks the two spaces or the blank line,
/// does not split.
pub open spec fn spec_split_request(s: Seq<u8>) -> Option<(Method, Seq<u8>, Seq<u8>)> {
    match find_byte(s, 0, 32) {
        Some(sp1) => {
            let name = s.subrange(0, sp1);
            if name == method_get_bytes() || name == method_post_bytes() {
                let method = if name == method_get_bytes() {
                    Method::Get
                } else {
                    Method::Post
                };
                match find_byte(s, sp1 + 1, 32) {
                    Some(sp2) => match find_blank_line(s, sp2) {
                        Some(h) => Some(
                            (method, s.subrange(sp1 + 1, sp2), s.subrange(h + 4, s.len() as int)),
                        ),
                        None => None,
                    },
                    None => None,
                }
            } else {
                None
            }
        },
        None => None,
    }
}

fn find_byte_exec(v: &Vec<u8>, i: usize, b: u8) -> (r: Option<usize>)
    requires
        i <= v@.len(),
    ensures
        r matches Some(j) ==> find_byte(v@, i as int, b) == Some(j as int) && i <= j
            < v@.len(),
        r is None ==> find_byte(v@, i as int, b) is None,
{
    let n = v.len();
    let mut j = i;
    while j < n && v[j] != b
        invariant
            i <= j <= n,
            n == v@.len(),
            find_byte(v@, i as int, b) == find_byte(v@, j as int, b),
        decreases n - j,
    {
        proof {
            assert(find_byte(v@, j as int, b) == find_byte(v@, j + 1, b));
        }
        j = j + 1;
    }
    if j < n {
        Some(j)
    } else {
        None
    }
}

fn find_blank_line_exec(v: &Vec<u8>, i: usize) -> (r: Option<usize>)
    requires
        i <= v@.len(),
    ensures
        r matches Some(j) ==> find_blank_line(v@, i as int) == Some(j as int) && i <= j && j + 4
            <= v@.len(),
        r is None ==> find_blank_line(v@, i as int) is None,
{
    let n = v.len();
    if n < 4 {
        return None;
    }
    let mut j = i;
    while j <= n - 4 && !(v[j] == 13 && v[j + 1] == 10 && v[j + 2] == 13 && v[j + 3] == 10)
        invariant
            i <= j,
            j <= n,
            n == v@.len(),
            n >= 4,
            find_blank_line(v@, i as int) == find_blank_line(v@, j as int),
        decreases n - j,
    {
        proof {
            assert(find_blank_line(v@, j as int) == find_blank_line(v@, j + 1));
        }
        j = j + 1;
    }
    if j <= n - 4 {
        Some(j)
    } else {
        None
    }
}

fn copy_range(v: &Vec<u8>, a: usize, b: usize) -> (out: Vec<u8>)
    requires
        a <= b <= v@.len(),
    ensures
        out@ == v@.subrange(a as int, b as int),
{
    let mut out: Vec<u8> = Vec::new();
    let mut k = a;
    while k < b
        invariant
            a <= k <= b <= v@.len(),
            out@ == v@.subrange(a as int, k as int),
        decreases b - k,
    {
        out.push(v[k]);
        proof {
            assert(out@ =~= v@.subrange(a as int, k + 1));
        }
        k = k + 1;
    }
    out
}

fn method_get_vec() -> (v: Vec<u8>)
    ensures
        v@ == method_get_bytes(),
{
    let mut v: Vec<u8> = Vec::new();
    v.push(71);
    v.push(69);
    v.push(84);
    proof {
        assert(v@ =~= method_get_bytes());
    }
    v
}

fn method_post_vec() -> (v: Vec<u8>)
    ensures
        v@ == method_post_bytes(),
{
    let mut v: Vec<u8> = Vec::new();
    v.push(80);
    v.push(79);
    v.push(83);
    v.push(84);
    proof {
        assert(v@ =~= method_post_bytes());
    }
    v
}

/// Split a raw request into its method, path and body, exactly as
/// `spec_split_request` reads it; a request that does not split is
/// answered by closing the connection.
pub fn split_request(buf: &Vec<u8>) -> (r: Option<(Method, Vec<u8>, Vec<u8>)>)
    ensures
        r matches Some((m, p, b)) ==> spec_split_request(buf@) == Some((m, p@, b@)),
        r is None ==> spec_split_request(buf@) is None,
{
    let get_name = method_get_vec();
    let post_name = method_post_vec();
    let sp1 = match find_byte_exec(buf, 0, 32) {
        Some(x) => x,
        None => {
            return None;
        },
    };
    let name = copy_range(buf, 0, sp1);
    let is_get = bytes_eq(&name, &get_name);
    let is_post = bytes_eq(&name, &post_name);
    if !is_get && !is_post {
        return None;
    }
    let method = if is_get {
        Method::Get
    } else {
        Method::Post
    };
    proof {
        assert(method_get_bytes().len() == 3);
        assert(method_post_bytes().len() == 4);
    }
    let sp2 = match find_byte_exec(buf, sp1 + 1, 32) {
        Some(x) => x,
        None => {
            return None;
        },
    };
    let h = match find_blank_line_exec(buf, sp2) {
        Some(x) => x,
        None => {
            return None;
        },
    };
    let path = copy_range(buf, sp1 + 1, sp2);
    let end = buf.len();
    proof {
        assert(h + 4 <= end);
    }
    let body = copy_range(buf, h + 4, end);
    Some((method, path, body))
}

// ---------------------------------------------------------------------------
// Wire form of a response
// ---------------------------------------------------------------------------

/// The reason phrase sent beside a status code.
pub open spec fn status_reason(status: u16) -> Seq<char> {
    if status == 200 {
        "OK"@
    } else if status == 400 {
        "Bad Request"@
    } else if status == 404 {
        "Not Found"@
    } else {
        "Unknown"@
    }
}

/// The bytes of a response on the wire: status line, the closing
/// `Connection` header, the body's length, a blank line, the body.
pub open spec fn spec_response_bytes(status: u16, body: Seq<char>) -> Seq<u8> {
    ("HTTP/1.1 ").spec_bytes() + dec_digits(status as int) + (" ").spec_bytes() + encode_utf8(
        status_reason(status),
    ) + ("\r\nConnection: Close\r\nContent-Length: ").spec_bytes() + dec_digits(
        encode_utf8(body).len() as int,
    ) + ("\r\n\r\n").spec_bytes() + encode_utf8(body)
}

/// Serialize a response for the socket.
pub fn response_bytes(r: &Response) -> (out: Vec<u8>)
    ensures
        out@ == spec_response_bytes(r.status, r.body@),
{
    let mut out = "HTTP/1.1 ".as_bytes_vec();
    push_u64_dec(&mut out, r.status as u64);
    let mut sp = " ".as_bytes_vec();
    out.append(&mut sp);
    let mut reason = if r.status == 200 {
        "OK".as_bytes_vec()
    } else if r.status == 400 {
        "Bad Request".as_bytes_vec()
    } else if r.status == 404 {
        "Not Found".as_bytes_vec()
    } else {
        "Unknown".as_bytes_vec()
    };
    out.append(&mut reason);
    let mut hdr = "\r\nConnection: Close\r\nContent-Length: ".as_bytes_vec();
    out.append(&mut hdr);
    let mut body = r.body.as_str().as_bytes_vec();
    let blen: usize = body.len();
    push_u64_dec(&mut out, blen as u64);
    let mut sep = "\r\n\r\n".as_bytes_vec();
    out.append(&mut sep);
    out.append(&mut body);
    proof {
        assert(out@ =~= spec_response_bytes(r.status, r.body@));
    }
    out
}

/// The decode-error descriptions are never empty: a rejected payload
/// always answers `400` with a non-empty body.
pub proof fn lemma_error_bodies_nonempty()
    ensures
        shape_error_text().len() > 0,
        shapes_error_text().len() > 0,
{
    reveal_strlit("payload is not a valid shape encoding");
    reveal_strlit("payload is not a valid shape array encoding");
}

} // verus!
