//! The decisions of the GMGlobal broker client: how its replies are read,
//! when a session is renewed, and how its feed frames are taken apart.
use vstd::prelude::*;
use crate::number::{decimal, format_i64, format_u64, parse_i64, parsed_i64, signed_decimal};
use crate::text_map::TextMap;
use crate::trade::{
    fresh_request, scalar_string, scalar_text, scalar_to_u64, value_to_u64, JsonScalar, OrderType,
    TradeRequest, TradeSide,
};
use crate::text::{
    lemma_first_index, chars_of, contains_seq, contains_text, find_char, first_index, last_index, lowercase,
    rfind_char, starts_with_seq, starts_with_text, to_lowercase,
};

verus! {

/// A top-of-book quote. Prices are in paise.
#[derive(Debug, Clone)]
pub struct Quote {
    pub product: String,
    pub ltp: u64,
    pub bid: u64,
    pub ask: u64,
    pub timestamp: String,
}


/// Session renewals allowed for one request.
pub const MAX_RELOGINS: u32 = 2;

/// A session younger than this is reused, in nanoseconds.
pub const SESSION_REUSE_NANOS: i64 = 5_000_000_000;

/// "Invalid Login"
pub open spec fn invalid_login() -> Seq<char> {
    seq!['I', 'n', 'v', 'a', 'l', 'i', 'd', ' ', 'L', 'o', 'g', 'i', 'n']
}

/// "Invalid Server Time"
pub open spec fn invalid_server_time() -> Seq<char> {
    seq!['I', 'n', 'v', 'a', 'l', 'i', 'd', ' ', 'S', 'e', 'r', 'v', 'e', 'r', ' ', 'T', 'i', 'm', 'e']
}

/// A text that reports an expired or refused session.
pub open spec fn session_error(text: Seq<char>) -> bool {
    contains_seq(text, invalid_login()) || contains_seq(text, invalid_server_time())
}

/// Whether a reply text reports an expired or refused session.
pub fn is_session_error(text: &str) -> (r: bool)
    ensures
        r == session_error(text@),
{
    proof {
        reveal_strlit("Invalid Login");
        reveal_strlit("Invalid Server Time");
    }
    assert("Invalid Login"@ =~= invalid_login());
    assert("Invalid Server Time"@ =~= invalid_server_time());
    contains_text(text, "Invalid Login") || contains_text(text, "Invalid Server Time")
}

/// Whether the current session can be reused instead of logging in again:
/// only when not forced and the last login is less than five seconds old.
/// Times are in nanoseconds.
pub open spec fn session_reusable(force: bool, last_login: Option<i64>, now: i64) -> bool {
    !force && (last_login matches Some(t) && now - t < SESSION_REUSE_NANOS)
}

/// Decides whether a login may reuse the current session.
pub fn reuse_session(force: bool, last_login: Option<i64>, now: i64) -> (r: bool)
    ensures
        r == session_reusable(force, last_login, now),
{
    if force {
        return false;
    }
    match last_login {
        Some(t) => (now as i128) - (t as i128) < (SESSION_REUSE_NANOS as i128),
        None => false,
    }
}

/// A table the client reads from the broker.
#[derive(Debug, Clone, Copy, PartialEq, Eq, Structural)]
pub enum TableRequest {
    /// The script master list.
    Scripts,
    /// The order book, for the pending orders.
    PendingOrders,
    /// The position book, for the open positions.
    OpenPositions,
}

/// A broker request that renews the session when it has expired.
#[derive(Debug, Clone, Copy, PartialEq, Eq, Structural)]
pub enum BrokerCall {
    Table(TableRequest),
    PlaceTrade,
    DeleteOrder,
}

/// What to do with a reply body of a table request.
#[derive(Debug, Clone, PartialEq, Eq)]
pub enum BodyOutcome {
    /// The body can be read.
    Proceed,
    /// The session expired: log in again and repeat the request.
    Relogin,
    /// The session keeps expiring: fail with this message.
    GiveUp(String),
}

/// The abstract view of a body outcome.
pub enum BodyVerdict {
    Proceed,
    Relogin,
    GiveUp(Seq<char>),
}

impl View for BodyOutcome {
    type V = BodyVerdict;

    open spec fn view(&self) -> BodyVerdict {
        match self {
            BodyOutcome::Proceed => BodyVerdict::Proceed,
            BodyOutcome::Relogin => BodyVerdict::Relogin,
            BodyOutcome::GiveUp(m) => BodyVerdict::GiveUp(m@),
        }
    }
}

/// The message a table request fails with when the session keeps expiring.
pub open spec fn give_up_text(request: TableRequest) -> Seq<char> {
    match request {
        TableRequest::Scripts => "Failed to load scripts even after re-login"@,
        _ => "Failed after re-login"@,
    }
}

/// A body that reports a session error leads to a new login, at most twice;
/// after that the request fails with its give-up message.
pub open spec fn body_outcome_of(body: Seq<char>, relogins: u32, request: TableRequest) -> BodyVerdict {
    if !session_error(body) {
        BodyVerdict::Proceed
    } else if relogins < MAX_RELOGINS {
        BodyVerdict::Relogin
    } else {
        BodyVerdict::GiveUp(give_up_text(request))
    }
}

/// Decides what to do with a reply body of `request`, after `relogins`
/// renewals.
pub fn body_outcome(body: &str, relogins: u32, request: TableRequest) -> (r: BodyOutcome)
    ensures
        r@ == body_outcome_of(body@, relogins, request),
{
    if !is_session_error(body) {
        BodyOutcome::Proceed
    } else if relogins < MAX_RELOGINS {
        BodyOutcome::Relogin
    } else {
        match request {
            TableRequest::Scripts => BodyOutcome::GiveUp(
                String::from_str("Failed to load scripts even after re-login"),
            ),
            _ => BodyOutcome::GiveUp(String::from_str("Failed after re-login")),
        }
    }
}

/// The message a request fails with when the login that was to renew its
/// session fails with `e`.
pub open spec fn relogin_failed_text(call: BrokerCall, e: Seq<char>) -> Seq<char> {
    match call {
        BrokerCall::Table(TableRequest::Scripts) => "Re-login failed during load_scripts: "@ + e,
        BrokerCall::Table(_) => "Re-login failed: "@ + e,
        BrokerCall::PlaceTrade => "Re-login failed during place_trade: "@ + e,
        BrokerCall::DeleteOrder => "Re-login failed during delete_order: "@ + e,
    }
}

/// Builds `relogin_failed_text`.
pub fn relogin_failed(call: BrokerCall, e: &str) -> (r: String)
    ensures
        r@ == relogin_failed_text(call, e@),
{
    let prefix = match call {
        BrokerCall::Table(TableRequest::Scripts) => String::from_str("Re-login failed during load_scripts: "),
        BrokerCall::Table(_) => String::from_str("Re-login failed: "),
        BrokerCall::PlaceTrade => String::from_str("Re-login failed during place_trade: "),
        BrokerCall::DeleteOrder => String::from_str("Re-login failed during delete_order: "),
    };
    prefix.concat(e)
}

/// The message a table request fails with when its body, `body`, cannot be
/// decoded, the decoder saying `e`.
pub open spec fn table_parse_error_text(request: TableRequest, e: Seq<char>, body: Seq<char>) -> Seq<char> {
    match request {
        TableRequest::Scripts => "Failed to parse script list: "@ + e + " | "@ + body,
        _ => "Parse error: "@ + e,
    }
}

/// Builds `table_parse_error_text`.
pub fn table_parse_error(request: TableRequest, e: &str, body: &str) -> (r: String)
    ensures
        r@ == table_parse_error_text(request, e@, body@),
{
    match request {
        TableRequest::Scripts => {
            let a = String::from_str("Failed to parse script list: ").concat(e);
            let b = a.concat(" | ");
            b.concat(body)
        },
        _ => String::from_str("Parse error: ").concat(e),
    }
}

/// What a reply to an order request means.
#[derive(Debug, Clone, PartialEq, Eq)]
pub enum ReplyOutcome {
    Accepted,
    /// The session expired: log in again and repeat the request.
    Relogin,
    /// Refused, with the broker's message.
    Rejected(String),
}

/// The abstract view of a reply outcome.
pub enum ReplyVerdict {
    Accepted,
    Relogin,
    Rejected(Seq<char>),
}

impl View for ReplyOutcome {
    type V = ReplyVerdict;

    open spec fn view(&self) -> ReplyVerdict {
        match self {
            ReplyOutcome::Accepted => ReplyVerdict::Accepted,
            ReplyOutcome::Relogin => ReplyVerdict::Relogin,
            ReplyOutcome::Rejected(m) => ReplyVerdict::Rejected(m@),
        }
    }
}

/// The text of an optional string field, empty when absent.
pub open spec fn text_or_empty(f: Option<Seq<char>>) -> Seq<char> {
    match f {
        Some(t) => t,
        None => Seq::empty(),
    }
}

/// The view of an optional string field.
pub open spec fn field_view(f: Option<String>) -> Option<Seq<char>> {
    match f {
        Some(t) => Some(t@),
        None => None,
    }
}

/// "success"
pub open spec fn success_text() -> Seq<char> {
    seq!['s', 'u', 'c', 'c', 'e', 's', 's']
}

/// "Placed Successfully"
pub open spec fn placed_text() -> Seq<char> {
    seq!['P', 'l', 'a', 'c', 'e', 'd', ' ', 'S', 'u', 'c', 'c', 'e', 's', 's', 'f', 'u', 'l', 'l', 'y']
}

/// An order placement is accepted when its `status` is "success", its
/// `message` says "Placed Successfully", or its lowercased `status` mentions
/// "success". Otherwise a session error leads to a new login, at most twice,
/// and anything else is refused with the message. `status` and `message`
/// are the reply's string fields, absent when missing or not strings.
pub open spec fn placement_verdict(status: Option<Seq<char>>, message: Option<Seq<char>>, relogins: u32) -> ReplyVerdict {
    placement_verdict_lowered(status, message, lowercase(text_or_empty(status)), relogins)
}

/// `placement_verdict`, given the lowercased status text.
pub open spec fn placement_verdict_lowered(
    status: Option<Seq<char>>,
    message: Option<Seq<char>>,
    status_lowered: Seq<char>,
    relogins: u32,
) -> ReplyVerdict {
    let msg = text_or_empty(message);
    if status == Some(success_text()) || contains_seq(msg, placed_text()) || contains_seq(
        status_lowered,
        success_text(),
    ) {
        ReplyVerdict::Accepted
    } else if session_error(msg) && relogins < MAX_RELOGINS {
        ReplyVerdict::Relogin
    } else {
        ReplyVerdict::Rejected(msg)
    }
}

/// Reads a reply to an order placement whose status text is already
/// lowercased (see `placement_verdict_lowered`).
pub fn decide_placement(
    status: &Option<String>,
    message: &Option<String>,
    status_lowered: &str,
    relogins: u32,
) -> (r: ReplyOutcome)
    ensures
        r@ == placement_verdict_lowered(field_view(*status), field_view(*message), status_lowered@, relogins),
{
    proof {
        reveal_strlit("success");
        reveal_strlit("Placed Successfully");
    }
    assert("success"@ =~= success_text());
    assert("Placed Successfully"@ =~= placed_text());
    let msg = match message {
        Some(m) => m.clone(),
        None => String::new(),
    };
    let exact = match status {
        Some(s) => *s == String::from_str("success"),
        None => false,
    };
    if exact || contains_text(msg.as_str(), "Placed Successfully") || contains_text(status_lowered, "success") {
        ReplyOutcome::Accepted
    } else if is_session_error(msg.as_str()) && relogins < MAX_RELOGINS {
        ReplyOutcome::Relogin
    } else {
        ReplyOutcome::Rejected(msg)
    }
}

/// Reads a reply to an order placement (see `placement_verdict`).
pub fn placement_outcome(status: &Option<String>, message: &Option<String>, relogins: u32) -> (r: ReplyOutcome)
    ensures
        r@ == placement_verdict(field_view(*status), field_view(*message), relogins),
{
    let status_text = match status {
        Some(s) => s.clone(),
        None => String::new(),
    };
    let lowered = to_lowercase(status_text.as_str());
    decide_placement(status, message, lowered.as_str(), relogins)
}

/// What a reply to an order deletion means.
#[derive(Debug, Clone, PartialEq, Eq)]
pub enum DeleteOutcome {
    Accepted,
    /// A session error: look whether the order is still pending first.
    CheckPending,
    /// Refused, with the broker's message.
    Rejected(String),
}

/// The abstract view of a deletion outcome.
pub enum DeleteVerdict {
    Accepted,
    CheckPending,
    Rejected(Seq<char>),
}

impl View for DeleteOutcome {
    type V = DeleteVerdict;

    open spec fn view(&self) -> DeleteVerdict {
        match self {
            DeleteOutcome::Accepted => DeleteVerdict::Accepted,
            DeleteOutcome::CheckPending => DeleteVerdict::CheckPending,
            DeleteOutcome::Rejected(m) => DeleteVerdict::Rejected(m@),
        }
    }
}

/// "Trade Delete Failed"
pub open spec fn delete_failed_text() -> Seq<char> {
    seq!['T', 'r', 'a', 'd', 'e', ' ', 'D', 'e', 'l', 'e', 't', 'e', ' ', 'F', 'a', 'i', 'l', 'e', 'd']
}

/// A deletion fails only when its `status` is "error" or "fail"; its message
/// (or "Trade Delete Failed") then leads, when retrying is enabled, it is a
/// session error and fewer than two renewals were made, to a check of the
/// pending orders, and otherwise to a refusal.
pub open spec fn deletion_verdict(
    status: Option<Seq<char>>,
    message: Option<Seq<char>>,
    retry_enabled: bool,
    relogins: u32,
) -> DeleteVerdict {
    let failed = status == Some(seq!['e', 'r', 'r', 'o', 'r']) || status == Some(seq!['f', 'a', 'i', 'l']);
    let msg = match message {
        Some(m) => m,
        None => delete_failed_text(),
    };
    if !failed {
        DeleteVerdict::Accepted
    } else if retry_enabled && session_error(msg) && relogins < MAX_RELOGINS {
        DeleteVerdict::CheckPending
    } else {
        DeleteVerdict::Rejected(msg)
    }
}

/// Reads a reply to an order deletion (see `deletion_verdict`).
pub fn deletion_outcome(
    status: &Option<String>,
    message: &Option<String>,
    retry_enabled: bool,
    relogins: u32,
) -> (r: DeleteOutcome)
    ensures
        r@ == deletion_verdict(field_view(*status), field_view(*message), retry_enabled, relogins),
{
    proof {
        reveal_strlit("error");
        reveal_strlit("fail");
        reveal_strlit("Trade Delete Failed");
    }
    assert("error"@ =~= seq!['e', 'r', 'r', 'o', 'r']);
    assert("fail"@ =~= seq!['f', 'a', 'i', 'l']);
    assert("Trade Delete Failed"@ =~= delete_failed_text());
    let failed = match status {
        Some(s) => *s == String::from_str("error") || *s == String::from_str("fail"),
        None => false,
    };
    if !failed {
        return DeleteOutcome::Accepted;
    }
    let msg = match message {
        Some(m) => m.clone(),
        None => String::from_str("Trade Delete Failed"),
    };
    if retry_enabled && is_session_error(msg.as_str()) && relogins < MAX_RELOGINS {
        DeleteOutcome::CheckPending
    } else {
        DeleteOutcome::Rejected(msg)
    }
}

/// The body of a request to delete order `trade_id`: the trade id and an
/// empty password, as a JSON object with its keys in order.
pub open spec fn deletion_body(trade_id: int) -> Seq<char> {
    "{\"password\":\"\",\"trade_id\":"@ + signed_decimal(trade_id) + "}"@
}

/// Builds `deletion_body`.
pub fn deletion_request_body(trade_id: i64) -> (r: String)
    ensures
        r@ == deletion_body(trade_id as int),
{
    let head = String::from_str("{\"password\":\"\",\"trade_id\":");
    let n = format_i64(trade_id);
    let a = head.concat(n.as_str());
    a.concat("}")
}

/// The reply given for a deletion whose order is no longer pending.
pub open spec fn already_processed_reply() -> Seq<char> {
    "{\"message\":\"Order already processed\",\"note\":\"Order not found in pending orders\",\"status\":\"success\"}"@
}

/// What follows a deletion refused for a session error, once the pending
/// orders were looked up.
#[derive(Debug, Clone, PartialEq, Eq)]
pub enum PendingCheck {
    /// The order is no longer pending: the deletion succeeds with this reply.
    AlreadyDone(String),
    /// The order is still pending, or the lookup failed: log in again and
    /// repeat the deletion.
    Renew,
}

/// The abstract view of a pending check.
pub enum PendingVerdict {
    AlreadyDone(Seq<char>),
    Renew,
}

impl View for PendingCheck {
    type V = PendingVerdict;

    open spec fn view(&self) -> PendingVerdict {
        match self {
            PendingCheck::AlreadyDone(r) => PendingVerdict::AlreadyDone(r@),
            PendingCheck::Renew => PendingVerdict::Renew,
        }
    }
}

/// The view of a pending-order lookup: the ids, or why there are none.
pub open spec fn lookup_view(r: Result<Vec<String>, String>) -> Result<Seq<Seq<char>>, Seq<char>> {
    match r {
        Ok(ids) => Ok(ids@.map_values(|s: String| s@)),
        Err(e) => Err(e@),
    }
}

/// An order missing from a successful lookup is taken as already deleted or
/// executed; one still listed, or a failed lookup, leads to a new login.
pub open spec fn pending_check_of(lookup: Result<Seq<Seq<char>>, Seq<char>>, order_id: Seq<char>) -> PendingVerdict {
    match lookup {
        Ok(ids) => if ids.contains(order_id) {
            PendingVerdict::Renew
        } else {
            PendingVerdict::AlreadyDone(already_processed_reply())
        },
        Err(_) => PendingVerdict::Renew,
    }
}

/// Decides what follows a session-error refusal of a deletion (see
/// `pending_check_of`).
pub fn after_pending_check(lookup: &Result<Vec<String>, String>, order_id: &str) -> (r: PendingCheck)
    ensures
        r@ == pending_check_of(lookup_view(*lookup), order_id@),
{
    match lookup {
        Ok(ids) => {
            let listed = is_pending(ids, order_id);
            let ghost m = ids@.map_values(|s: String| s@);
            if listed {
                let ghost i = choose|i: int| 0 <= i < ids@.len() && #[trigger] ids@[i]@ == order_id@;
                assert(m[i] == order_id@);
                PendingCheck::Renew
            } else {
                assert(!m.contains(order_id@)) by {
                    if m.contains(order_id@) {
                        let k = choose|k: int| 0 <= k < m.len() && m[k] == order_id@;
                        assert(ids@[k]@ == order_id@);
                    }
                }
                PendingCheck::AlreadyDone(String::from_str(
                    "{\"message\":\"Order already processed\",\"note\":\"Order not found in pending orders\",\"status\":\"success\"}",
                ))
            }
        },
        Err(_) => PendingCheck::Renew,
    }
}

/// Whether `order_id` is among the pending order ids.
pub fn is_pending(pending: &Vec<String>, order_id: &str) -> (r: bool)
    ensures
        r == exists|i: int| 0 <= i < pending@.len() && #[trigger] pending@[i]@ == order_id@,
{
    let id = String::from_str(order_id);
    let mut i: usize = 0;
    while i < pending.len()
        invariant
            i <= pending@.len(),
            id@ == order_id@,
            forall|j: int| 0 <= j < i ==> #[trigger] pending@[j]@ != order_id@,
        decreases pending@.len() - i,
    {
        if pending[i] == id {
            return true;
        }
        i = i + 1;
    }
    false
}

/// Scans `s` from position `i` at brace depth `depth`: the position just
/// after the `}` that brings the depth back to zero, if there is one.
pub open spec fn close_after(s: Seq<char>, i: int, depth: int) -> Option<int>
    decreases s.len() - i,
{
    if i < 0 || i >= s.len() {
        None
    } else if s[i] == '{' {
        close_after(s, i + 1, depth + 1)
    } else if s[i] == '}' {
        if depth - 1 == 0 {
            Some(i + 1)
        } else {
            close_after(s, i + 1, depth - 1)
        }
    } else {
        close_after(s, i + 1, depth)
    }
}

/// Why a handshake reply holds no JSON object.
#[derive(Debug, Clone, Copy, PartialEq, Eq, Structural)]
pub enum HandshakeError {
    /// No `{` in the reply.
    NoStart,
    /// The first `{` is never closed.
    NoEnd,
}

/// The JSON object of a handshake reply: from its first `{` to the `}` that
/// closes it.
pub open spec fn handshake_part(body: Seq<char>) -> Result<Seq<char>, HandshakeError> {
    match first_index(body, '{') {
        None => Err(HandshakeError::NoStart),
        Some(a) => match close_after(body, a, 0) {
            None => Err(HandshakeError::NoEnd),
            Some(b) => Ok(body.subrange(a, b)),
        },
    }
}

/// Cuts the JSON object out of a handshake reply (see `handshake_part`).
pub fn handshake_json(body: &str) -> (r: Result<String, HandshakeError>)
    ensures
        r matches Ok(j) ==> handshake_part(body@) == Ok::<Seq<char>, HandshakeError>(j@),
        r matches Err(e) ==> handshake_part(body@) == Err::<Seq<char>, HandshakeError>(e),
{
    let v = chars_of(body);
    let start = match find_char(&v, '{') {
        Some(i) => i,
        None => return Err(HandshakeError::NoStart),
    };
    let mut depth: usize = 0;
    let mut i: usize = start;
    while i < v.len()
        invariant
            start <= i <= v.len(),
            v@ == body@,
            v@[start as int] == '{',
            first_index(body@, '{') == Some(start as int),
            i == start ==> depth == 0,
            i > start ==> depth >= 1,
            depth <= i - start,
            close_after(v@, start as int, 0) == close_after(v@, i as int, depth as int),
        decreases v.len() - i,
    {
        let c = v[i];
        if c == '{' {
            depth = depth + 1;
        } else if c == '}' {
            if depth == 1 {
                assert(close_after(v@, i as int, 1) == Some(i + 1));
                let end = i + 1;
                let j = String::from_str(body.substring_char(start, end));
                assert(j@ == body@.subrange(start as int, end as int));
                return Ok(j);
            }
            depth = depth - 1;
        }
        i = i + 1;
    }
    Err(HandshakeError::NoEnd)
}

/// How a feed frame is handled.
#[derive(Debug, Clone, Copy, PartialEq, Eq, Structural)]
pub enum FrameKind {
    /// "2": the server pings; answer "3".
    Ping,
    /// "3": the server answers a ping.
    Pong,
    /// Starts with "42": an event with a JSON array.
    Event,
    /// Anything else, ignored.
    Other,
}

/// The kind of a feed frame.
pub open spec fn frame_kind_of(text: Seq<char>) -> FrameKind {
    if text == seq!['2'] {
        FrameKind::Ping
    } else if text == seq!['3'] {
        FrameKind::Pong
    } else if starts_with_seq(text, seq!['4', '2']) {
        FrameKind::Event
    } else {
        FrameKind::Other
    }
}

/// Classifies a feed frame.
pub fn frame_kind(text: &str) -> (r: FrameKind)
    ensures
        r == frame_kind_of(text@),
{
    proof {
        reveal_strlit("2");
        reveal_strlit("3");
        reveal_strlit("42");
    }
    assert("42"@ =~= seq!['4', '2']);
    assert("2"@ =~= seq!['2']);
    assert("3"@ =~= seq!['3']);
    let t = String::from_str(text);
    let two = String::from_str("2");
    let three = String::from_str("3");
    let is_two = t == two;
    let is_three = t == three;
    assert(is_two == (text@ == seq!['2']));
    assert(is_three == (text@ == seq!['3']));
    if is_two {
        FrameKind::Ping
    } else if is_three {
        FrameKind::Pong
    } else if starts_with_text(text, "42") {
        FrameKind::Event
    } else {
        FrameKind::Other
    }
}

/// The JSON array inside an event frame.
pub enum ArrayPart {
    /// No `[` or no `]`.
    Missing,
    /// The last `]` comes more than one place before the first `[`: no
    /// span can be cut.
    Inverted,
    /// From the first `[` to the last `]`; empty when the `]` comes
    /// directly before the `[`.
    Part(String),
}

/// The array part of a frame: from its first `[` to its last `]`, empty
/// when the `]` comes directly before the `[`.
pub open spec fn array_part_of(text: Seq<char>) -> Option<Option<Seq<char>>> {
    match (first_index(text, '['), last_index(text, ']')) {
        (Some(a), Some(b)) => if a <= b + 1 {
            Some(Some(text.subrange(a, b + 1)))
        } else {
            Some(None)
        },
        _ => None,
    }
}

/// Cuts the JSON array out of an event frame (see `array_part_of`).
pub fn event_array(text: &str) -> (r: ArrayPart)
    ensures
        r is Missing <==> array_part_of(text@) is None,
        r is Inverted <==> array_part_of(text@) == Some(None::<Seq<char>>),
        r matches ArrayPart::Part(p) ==> array_part_of(text@) == Some(Some(p@)),
{
    let v = chars_of(text);
    let start = match find_char(&v, '[') {
        Some(i) => i,
        None => return ArrayPart::Missing,
    };
    let end = match rfind_char(&v, ']') {
        Some(i) => i,
        None => return ArrayPart::Missing,
    };
    if end + 1 < start {
        return ArrayPart::Inverted;
    }
    ArrayPart::Part(String::from_str(text.substring_char(start, end + 1)))
}

/// The frame that subscribes the feed to a product:
/// `42["addMarketWatch",{"product":"<product>"}]`.
pub open spec fn subscribe_text(product: Seq<char>) -> Seq<char> {
    seq!['4', '2', '[', '"', 'a', 'd', 'd', 'M', 'a', 'r', 'k', 'e', 't', 'W', 'a', 't', 'c', 'h', '"', ',', '{', '"', 'p', 'r', 'o', 'd', 'u', 'c', 't', '"', ':', '"']
        + product + seq!['"', '}', ']']
}

/// Builds the frame that subscribes the feed to `product`.
pub fn subscribe_message(product: &str) -> (r: String)
    ensures
        r@ == subscribe_text(product@),
{
    proof {
        reveal_strlit("42[\"addMarketWatch\",{\"product\":\"");
        reveal_strlit("\"}]");
    }
    let r = String::from_str("42[\"addMarketWatch\",{\"product\":\"").concat(product).concat("\"}]");
    assert(r@ =~= subscribe_text(product@));
    r
}

/// The products the feed is subscribed to.
pub struct Subscriptions {
    products: TextMap<()>,
}

impl View for Subscriptions {
    type V = Set<Seq<char>>;

    closed spec fn view(&self) -> Set<Seq<char>> {
        self.products@.dom()
    }
}

impl Subscriptions {
    /// No subscriptions.
    pub fn new() -> (r: Self)
        ensures
            r@ == Set::<Seq<char>>::empty(),
    {
        Subscriptions { products: TextMap::new() }
    }

    /// Adds `product`; true when it was not subscribed before.
    pub fn add(&mut self, product: String) -> (r: bool)
        ensures
            (final(self)@, r) == subscribe(old(self)@, product@),
    {
        let fresh = !self.products.contains_key(&product);
        self.products.insert(product, ());
        fresh
    }

    /// The subscribed products, each once.
    pub fn products(&self) -> (r: Vec<String>)
        ensures
            self@.finite(),
            r@.len() == self@.len(),
            forall|i: int, j: int| 0 <= i < j < r@.len() ==> #[trigger] r@[i]@ != #[trigger] r@[j]@,
            forall|i: int| 0 <= i < r@.len() ==> self@.contains(#[trigger] r@[i]@),
            forall|k: Seq<char>| self@.contains(k) ==> exists|i: int| 0 <= i < r@.len() && #[trigger] r@[i]@ == k,
    {
        self.products.keys()
    }
}

/// Subscribing `p` to the set `subs`: the new set, and whether `p` is new
/// (and so announced to the feed).
pub open spec fn subscribe(subs: Set<Seq<char>>, p: Seq<char>) -> (Set<Seq<char>>, bool) {
    (subs.insert(p), !subs.contains(p))
}

/// A product is announced to the feed once: after `add(p)`, adding `p`
/// again reports it as already subscribed and leaves the set unchanged; the
/// set only grows.
pub proof fn law_subscribe_once(subs: Set<Seq<char>>, p: Seq<char>, q: Seq<char>)
    ensures
        subscribe(subscribe(subs, p).0, p) == (subscribe(subs, p).0, false),
        subs.contains(q) ==> subscribe(subs, p).0.contains(q),
        subscribe(subs, p).0.contains(p),
{
    assert(subs.insert(p).insert(p) =~= subs.insert(p));
}

/// The broker's ids of a tradable script.
#[derive(Debug, Clone)]
pub struct ScriptInfo {
    pub script_id: String,
    pub script_expiry_id: String,
}

/// One entry of the broker's script list.
pub struct ScriptRecord {
    pub script_id: String,
    pub script_name: String,
    pub script_expiry_id: String,
    pub script_expiry_type: String,
}

/// The product name of a script: its name, "-", its expiry type.
pub open spec fn script_key(r: ScriptRecord) -> Seq<char> {
    r.script_name@ + seq!['-'] + r.script_expiry_type@
}

/// The ids of a script.
pub open spec fn script_info(r: ScriptRecord) -> (Seq<char>, Seq<char>) {
    (r.script_id@, r.script_expiry_id@)
}

/// The script table a list builds, later entries replacing earlier ones
/// with the same product name.
pub open spec fn script_table_of(s: Seq<ScriptRecord>) -> Map<Seq<char>, (Seq<char>, Seq<char>)>
    decreases s.len(),
{
    if s.len() == 0 {
        Map::empty()
    } else {
        script_table_of(s.drop_last()).insert(script_key(s.last()), script_info(s.last()))
    }
}

/// The view of a script table.
pub open spec fn script_ids_view(t: Map<Seq<char>, ScriptInfo>) -> Map<Seq<char>, (Seq<char>, Seq<char>)> {
    t.map_values(|i: ScriptInfo| (i.script_id@, i.script_expiry_id@))
}

/// Builds the table of scripts by product name from the broker's list.
pub fn script_table(records: &Vec<ScriptRecord>) -> (t: TextMap<ScriptInfo>)
    ensures
        script_ids_view(t@) == script_table_of(records@),
{
    let mut t: TextMap<ScriptInfo> = TextMap::new();
    assert(script_ids_view(t@) =~= script_table_of(records@.take(0)));
    let mut i: usize = 0;
    while i < records.len()
        invariant
            i <= records@.len(),
            script_ids_view(t@) == script_table_of(records@.take(i as int)),
        decreases records@.len() - i,
    {
        proof { reveal_strlit("-"); }
        let r = &records[i];
        let key = String::from_str(r.script_name.as_str()).concat("-").concat(r.script_expiry_type.as_str());
        assert(key@ =~= script_key(*r));
        let info = ScriptInfo { script_id: r.script_id.clone(), script_expiry_id: r.script_expiry_id.clone() };
        let ghost before = t@;
        t.insert(key, info);
        proof {
            let d = records@.take(i + 1);
            assert(d.drop_last() =~= records@.take(i as int));
            assert(d.last() == *r);
            assert(script_ids_view(t@) =~= script_ids_view(before).insert(script_key(*r), script_info(*r)));
        }
        i = i + 1;
    }
    assert(records@.take(records@.len() as int) =~= records@);
    t
}

/// "Script not found: <product>"
pub open spec fn script_not_found(product: Seq<char>) -> Seq<char> {
    seq!['S', 'c', 'r', 'i', 'p', 't', ' ', 'n', 'o', 't', ' ', 'f', 'o', 'u', 'n', 'd', ':', ' '] + product
}

/// The script ids an order is sent with: the given ones when both are
/// given, otherwise the product's entry in the script table.
pub open spec fn chosen_script(
    script_id: Option<Seq<char>>,
    script_expiry_id: Option<Seq<char>>,
    table: Map<Seq<char>, (Seq<char>, Seq<char>)>,
    product: Seq<char>,
) -> Result<(Seq<char>, Seq<char>), Seq<char>> {
    match (script_id, script_expiry_id) {
        (Some(a), Some(b)) => Ok((a, b)),
        _ => if table.dom().contains(product) {
            Ok(table[product])
        } else {
            Err(script_not_found(product))
        },
    }
}

/// Builds the body of an order placement: the request for the order, the
/// chosen script ids (see `chosen_script`) and the logged-in user.
pub fn prepare_trade(
    product: &str,
    price: Option<u128>,
    side: TradeSide,
    order_type: OrderType,
    trade_qty: u32,
    market_type_id: u8,
    script_id: Option<String>,
    script_expiry_id: Option<String>,
    scripts: &TextMap<ScriptInfo>,
    user_id: &str,
) -> (r: Result<TradeRequest, String>)
    ensures
        r is Ok <==> chosen_script(
            field_view(script_id),
            field_view(script_expiry_id),
            script_ids_view(scripts@),
            product@,
        ) is Ok,
        r matches Err(e) ==> chosen_script(
            field_view(script_id),
            field_view(script_expiry_id),
            script_ids_view(scripts@),
            product@,
        ) == Err::<(Seq<char>, Seq<char>), Seq<char>>(e@),
        r matches Ok(t) ==> {
            &&& fresh_request(t, product@, price, side, order_type, trade_qty, market_type_id)
            &&& t.user_id@ == user_id@
            &&& t.script_id matches Some(a) && t.script_expiry_id matches Some(b) && chosen_script(
                field_view(script_id),
                field_view(script_expiry_id),
                script_ids_view(scripts@),
                product@,
            ) == Ok::<(Seq<char>, Seq<char>), Seq<char>>((a@, b@))
        },
        (script_id is Some && script_expiry_id is Some) ==> (r matches Ok(t) && field_view(t.script_id)
            == field_view(script_id) && field_view(t.script_expiry_id) == field_view(script_expiry_id)),
{
    let mut req = TradeRequest::new(product, price, side, order_type, trade_qty, market_type_id);
    match (script_id, script_expiry_id) {
        (Some(a), Some(b)) => {
            req.script_id = Some(a);
            req.script_expiry_id = Some(b);
        },
        _ => {
            let key = String::from_str(product);
            match scripts.get(&key) {
                Some(info) => {
                    req.script_id = Some(info.script_id.clone());
                    req.script_expiry_id = Some(info.script_expiry_id.clone());
                },
                None => {
                    proof { reveal_strlit("Script not found: "); }
                    let e = String::from_str("Script not found: ").concat(product);
                    assert(e@ =~= script_not_found(product@));
                    return Err(e);
                },
            }
        },
    }
    req.user_id = String::from_str(user_id);
    Ok(req)
}

/// The script ids of an order: when the caller gives both, the order carries
/// exactly those, whatever the script table holds; otherwise it carries the
/// table's ids for the product, and without them the order fails with
/// "Script not found: " and the product.
pub proof fn law_given_script_ids_win(
    script_id: Option<Seq<char>>,
    script_expiry_id: Option<Seq<char>>,
    table: Map<Seq<char>, (Seq<char>, Seq<char>)>,
    product: Seq<char>,
)
    ensures
        script_id matches Some(a) ==> script_expiry_id matches Some(b) ==> chosen_script(
            script_id,
            script_expiry_id,
            table,
            product,
        ) == Ok::<(Seq<char>, Seq<char>), Seq<char>>((a, b)),
        !(script_id is Some && script_expiry_id is Some) ==> {
            &&& table.dom().contains(product) ==> chosen_script(script_id, script_expiry_id, table, product)
                == Ok::<(Seq<char>, Seq<char>), Seq<char>>(table[product])
            &&& !table.dom().contains(product) ==> chosen_script(script_id, script_expiry_id, table, product)
                == Err::<(Seq<char>, Seq<char>), Seq<char>>("Script not found: "@ + product)
        },
{
    reveal_strlit("Script not found: ");
    assert("Script not found: "@ + product =~= script_not_found(product));
}

/// Reads an order id, which the broker wants as an integer.
pub fn parse_order_id(order_id: &str) -> (r: Result<i64, String>)
    ensures
        r matches Ok(n) ==> parsed_i64(order_id@) == Some(n),
        r is Err ==> parsed_i64(order_id@) is None,
        r matches Err(e) ==> e@ == "Invalid order_id format"@,
{
    match parse_i64(order_id) {
        Some(n) => Ok(n),
        None => Err(String::from_str("Invalid order_id format")),
    }
}

/// The cells of the rows of a table.
pub open spec fn rows_view(rows: Seq<Vec<JsonScalar>>) -> Seq<Seq<JsonScalar>> {
    rows.map_values(|r: Vec<JsonScalar>| r@)
}

/// The text of cell `i` of a row, if it is a string cell.
pub open spec fn cell_text(row: Seq<JsonScalar>, i: int) -> Option<Seq<char>> {
    if 0 <= i < row.len() {
        scalar_text(row[i])
    } else {
        None
    }
}

/// "pending"
pub open spec fn pending_text() -> Seq<char> {
    seq!['p', 'e', 'n', 'd', 'i', 'n', 'g']
}

/// The id of an order-book row that is still pending: its status (cell 9)
/// mentions "pending" in any case, and cell 13 holds the id.
pub open spec fn pending_row_id(row: Seq<JsonScalar>) -> Option<Seq<char>> {
    pending_row_id_lowered(row, lowercase(text_or_empty(cell_text(row, 9))))
}

/// `pending_row_id`, given the lowercased status text of the row.
pub open spec fn pending_row_id_lowered(row: Seq<JsonScalar>, status_lowered: Seq<char>) -> Option<Seq<char>> {
    if contains_seq(status_lowered, pending_text()) && row.len() > 13 {
        Some(decimal(scalar_to_u64(row[13]) as nat))
    } else {
        None
    }
}

/// The ids of the pending orders of an order book, in row order.
pub open spec fn pending_ids(rows: Seq<Seq<JsonScalar>>) -> Seq<Seq<char>>
    decreases rows.len(),
{
    if rows.len() == 0 {
        Seq::empty()
    } else {
        let before = pending_ids(rows.drop_last());
        match pending_row_id(rows.last()) {
            Some(id) => before.push(id),
            None => before,
        }
    }
}

/// The id of a pending row, if the row is pending.
fn pending_id_of(row: &Vec<JsonScalar>) -> (r: Option<String>)
    ensures
        r is None <==> pending_row_id(row@) is None,
        r matches Some(s) ==> pending_row_id(row@) == Some(s@),
{
    let status = if row.len() > 9 {
        match scalar_string(&row[9]) {
            Some(s) => s,
            None => String::new(),
        }
    } else {
        String::new()
    };
    assert(status@ == text_or_empty(cell_text(row@, 9)));
    let lowered = to_lowercase(status.as_str());
    pending_id_from(row, lowered.as_str())
}

/// The id of an order-book row given its lowercased status text (see
/// `pending_row_id_lowered`).
pub fn pending_id_from(row: &Vec<JsonScalar>, status_lowered: &str) -> (r: Option<String>)
    ensures
        r is None <==> pending_row_id_lowered(row@, status_lowered@) is None,
        r matches Some(s) ==> pending_row_id_lowered(row@, status_lowered@) == Some(s@),
{
    proof { reveal_strlit("pending"); }
    assert("pending"@ =~= pending_text());
    if !contains_text(status_lowered, "pending") {
        return None;
    }
    if row.len() > 13 {
        Some(format_u64(value_to_u64(&row[13])))
    } else {
        None
    }
}

/// The ids of the pending orders of an order book (see `pending_ids`).
pub fn pending_order_ids(rows: &Vec<Vec<JsonScalar>>) -> (r: Vec<String>)
    ensures
        r@.map_values(|s: String| s@) == pending_ids(rows_view(rows@)),
{
    let mut out: Vec<String> = Vec::new();
    let mut i: usize = 0;
    assert(rows_view(rows@).take(0) =~= Seq::<Seq<JsonScalar>>::empty());
    assert(out@.map_values(|s: String| s@) =~= pending_ids(rows_view(rows@).take(0)));
    while i < rows.len()
        invariant
            i <= rows@.len(),
            out@.map_values(|s: String| s@) == pending_ids(rows_view(rows@).take(i as int)),
        decreases rows@.len() - i,
    {
        let ghost before = out@;
        let id = pending_id_of(&rows[i]);
        proof {
            let d = rows_view(rows@).take(i + 1);
            assert(d.drop_last() =~= rows_view(rows@).take(i as int));
            assert(d.last() == rows@[i as int]@);
        }
        match id {
            Some(s) => {
                out.push(s);
                assert(out@.map_values(|s: String| s@) =~= before.map_values(|s: String| s@).push(
                    out@[out@.len() - 1]@,
                ));
            },
            None => {},
        }
        i = i + 1;
    }
    assert(rows_view(rows@).take(rows@.len() as int) =~= rows_view(rows@));
    out
}

/// The fields of an open position that the engine reads from a row of the
/// position book; the quantities and prices are read by the caller.
pub struct PositionFields {
    /// Which row of the book this is.
    pub row: usize,
    pub product: String,
    pub quantity: u64,
    /// Cell 4, the bought quantity text ("0" when not a string).
    pub buy_qty_text: String,
    /// Cell 6, the sold quantity text ("0" when not a string).
    pub sell_qty_text: String,
    pub script_expiry_id: Option<String>,
    pub script_id: Option<String>,
}

/// A row of the position book is an open position when it has more than 22
/// cells and a nonzero net quantity in cell 22.
pub open spec fn is_open_position(row: Seq<JsonScalar>) -> bool {
    row.len() > 22 && scalar_to_u64(row[22]) != 0
}

/// The text of a cell, or `default` when it is not a string.
pub open spec fn text_or(row: Seq<JsonScalar>, i: int, default: Seq<char>) -> Seq<char> {
    match cell_text(row, i) {
        Some(t) => t,
        None => default,
    }
}

/// `p` holds the fields of row `i` of a position book (see `is_open_position`):
/// product from cell 0, net quantity from 22, expiry id from 23, script id from 24.
pub open spec fn position_matches(p: PositionFields, i: int, row: Seq<JsonScalar>) -> bool {
    &&& p.row == i
    &&& p.product@ == text_or(row, 0, Seq::empty())
    &&& p.quantity == scalar_to_u64(row[22])
    &&& p.buy_qty_text@ == text_or(row, 4, seq!['0'])
    &&& p.sell_qty_text@ == text_or(row, 6, seq!['0'])
    &&& field_view(p.script_expiry_id) == cell_text(row, 23)
    &&& field_view(p.script_id) == cell_text(row, 24)
}

/// The text of cell `i` of a row, or `default` when it is not a string.
fn cell_string_or(row: &Vec<JsonScalar>, i: usize, default: &str) -> (r: String)
    requires
        i < row@.len(),
    ensures
        r@ == text_or(row@, i as int, default@),
{
    match scalar_string(&row[i]) {
        Some(s) => s,
        None => String::from_str(default),
    }
}

/// The text of cell `i` of a row, if it exists and is a string.
fn cell_string(row: &Vec<JsonScalar>, i: usize) -> (r: Option<String>)
    ensures
        field_view(r) == cell_text(row@, i as int),
{
    if i < row.len() {
        scalar_string(&row[i])
    } else {
        None
    }
}

/// The open positions of a position book, in row order.
pub fn open_positions(rows: &Vec<Vec<JsonScalar>>) -> (r: Vec<PositionFields>)
    ensures
        forall|k: int| 0 <= k < r@.len() ==> {
            let p = #[trigger] r@[k];
            &&& 0 <= p.row < rows@.len()
            &&& is_open_position(rows@[p.row as int]@)
            &&& position_matches(p, p.row as int, rows@[p.row as int]@)
        },
        forall|k: int, m: int| 0 <= k < m < r@.len() ==> #[trigger] r@[k].row < #[trigger] r@[m].row,
        forall|i: int| 0 <= i < rows@.len() && is_open_position(#[trigger] rows@[i]@) ==> exists|k: int|
            0 <= k < r@.len() && r@[k].row == i,
{
    proof { reveal_strlit("0"); reveal_strlit(""); }
    assert("0"@ =~= seq!['0']);
    assert(""@ =~= Seq::<char>::empty());
    let mut out: Vec<PositionFields> = Vec::new();
    let mut i: usize = 0;
    while i < rows.len()
        invariant
            i <= rows@.len(),
            "0"@ == seq!['0'],
            ""@ == Seq::<char>::empty(),
            forall|k: int| 0 <= k < out@.len() ==> {
                let p = #[trigger] out@[k];
                &&& 0 <= p.row < i
                &&& is_open_position(rows@[p.row as int]@)
                &&& position_matches(p, p.row as int, rows@[p.row as int]@)
            },
            forall|k: int, m: int| 0 <= k < m < out@.len() ==> #[trigger] out@[k].row < #[trigger] out@[m].row,
            forall|j: int| 0 <= j < i && is_open_position(#[trigger] rows@[j]@) ==> exists|k: int|
                0 <= k < out@.len() && out@[k].row == j,
        decreases rows@.len() - i,
    {
        let row = &rows[i];
        if row.len() > 22 {
            let quantity = value_to_u64(&row[22]);
            if quantity != 0 {
                let p = PositionFields {
                    row: i,
                    product: cell_string_or(row, 0, ""),
                    quantity,
                    buy_qty_text: cell_string_or(row, 4, "0"),
                    sell_qty_text: cell_string_or(row, 6, "0"),
                    script_expiry_id: cell_string(row, 23),
                    script_id: cell_string(row, 24),
                };
                let ghost before = out@;
                out.push(p);
                proof {
                    assert forall|j: int| 0 <= j < i + 1 && is_open_position(#[trigger] rows@[j]@) implies exists|k: int|
                        0 <= k < out@.len() && out@[k].row == j by {
                        if j < i {
                            let k = choose|k: int| 0 <= k < before.len() && before[k].row == j;
                            assert(out@[k] == before[k]);
                        } else {
                            assert(out@[out@.len() - 1].row == j);
                        }
                    }
                }
            }
        }
        i = i + 1;
    }
    out
}

/// How a reply is read, in the broker's own words. An order placement is
/// accepted when its status is "success", its message says "Placed
/// Successfully" or its lowercased status mentions "success"; a deletion
/// fails only when its status is "error" or "fail". A refused request whose
/// message (for a deletion, "Trade Delete Failed" when it has none) mentions
/// "Invalid Login" or "Invalid Server Time" renews the session while fewer
/// than two renewals were made (for a deletion, when retrying is enabled,
/// after a look at the pending orders); otherwise it fails with that
/// message. A table body that mentions either is renewed in the same way,
/// and after two renewals the request gives up.
pub proof fn law_session_errors_renew(
    status: Option<Seq<char>>,
    message: Option<Seq<char>>,
    status_lowered: Seq<char>,
    retry_enabled: bool,
    body: Seq<char>,
    request: TableRequest,
    relogins: u32,
)
    ensures
        ({
            let msg = text_or_empty(message);
            let v = placement_verdict_lowered(status, message, status_lowered, relogins);
            let accepted = status == Some("success"@) || contains_seq(msg, "Placed Successfully"@)
                || contains_seq(status_lowered, "success"@);
            let expired = contains_seq(msg, "Invalid Login"@) || contains_seq(msg, "Invalid Server Time"@);
            &&& (v is Accepted) <==> accepted
            &&& (v is Relogin) <==> (!accepted && expired && relogins < 2)
            &&& (!accepted && !(expired && relogins < 2)) ==> v == ReplyVerdict::Rejected(msg)
        }),
        ({
            let msg = match message {
                Some(m) => m,
                None => "Trade Delete Failed"@,
            };
            let v = deletion_verdict(status, message, retry_enabled, relogins);
            let failed = status == Some("error"@) || status == Some("fail"@);
            let expired = contains_seq(msg, "Invalid Login"@) || contains_seq(msg, "Invalid Server Time"@);
            &&& (v is Accepted) <==> !failed
            &&& (v is CheckPending) <==> (failed && retry_enabled && expired && relogins < 2)
            &&& (failed && !(retry_enabled && expired && relogins < 2)) ==> v == DeleteVerdict::Rejected(msg)
        }),
        ({
            let v = body_outcome_of(body, relogins, request);
            let expired = contains_seq(body, "Invalid Login"@) || contains_seq(body, "Invalid Server Time"@);
            &&& (v is Proceed) <==> !expired
            &&& (v is Relogin) <==> (expired && relogins < 2)
            &&& (expired && relogins >= 2) ==> v is GiveUp
        }),
{
    reveal_strlit("success");
    reveal_strlit("Placed Successfully");
    reveal_strlit("Invalid Login");
    reveal_strlit("Invalid Server Time");
    reveal_strlit("Trade Delete Failed");
    reveal_strlit("error");
    reveal_strlit("fail");
    assert("success"@ =~= success_text());
    assert("Placed Successfully"@ =~= placed_text());
    assert("Invalid Login"@ =~= invalid_login());
    assert("Invalid Server Time"@ =~= invalid_server_time());
    assert("Trade Delete Failed"@ =~= delete_failed_text());
    assert("error"@ =~= seq!['e', 'r', 'r', 'o', 'r']);
    assert("fail"@ =~= seq!['f', 'a', 'i', 'l']);
}

/// A session is renewed at most twice for one request: no reading of a
/// reply asks for a new login once two renewals were made.
pub proof fn law_relogins_bounded(
    body: Seq<char>,
    request: TableRequest,
    status: Option<Seq<char>>,
    message: Option<Seq<char>>,
    retry_enabled: bool,
    relogins: u32,
)
    ensures
        body_outcome_of(body, relogins, request) is Relogin ==> relogins < MAX_RELOGINS,
        placement_verdict(status, message, relogins) is Relogin ==> relogins < MAX_RELOGINS,
        deletion_verdict(status, message, retry_enabled, relogins) is CheckPending ==> relogins
            < MAX_RELOGINS,
        relogins >= MAX_RELOGINS ==> !(placement_verdict(status, message, relogins) is Relogin),
{
}

/// A brace scan ends just after a `}` somewhere past where it started.
proof fn lemma_close_after_bounds(s: Seq<char>, i: int, depth: int)
    ensures
        close_after(s, i, depth) matches Some(k) ==> 0 <= i < k <= s.len() && s[k - 1] == '}',
    decreases s.len() - i,
{
    if 0 <= i < s.len() {
        if s[i] == '{' {
            lemma_close_after_bounds(s, i + 1, depth + 1);
        } else if s[i] == '}' {
            if depth - 1 != 0 {
                lemma_close_after_bounds(s, i + 1, depth - 1);
            }
        } else {
            lemma_close_after_bounds(s, i + 1, depth);
        }
    }
}

/// The object cut out of a handshake reply begins with `{` and ends with `}`.
pub proof fn law_handshake_part_is_braced(body: Seq<char>)
    ensures
        handshake_part(body) matches Ok(j) ==> j.len() >= 2 && j[0] == '{' && j.last() == '}',
{
    lemma_first_index(body, '{');
    if let Some(a) = first_index(body, '{') {
        lemma_close_after_bounds(body, a, 0);
        if let Some(b) = close_after(body, a, 0) {
            assert(body[a] == '{');
            assert(b != a + 1) by {
                if b == a + 1 {
                    assert(body[b - 1] == '}');
                }
            }
        }
    }
}

/// "marketWatch"
pub open spec fn market_watch_text() -> Seq<char> {
    seq!['m', 'a', 'r', 'k', 'e', 't', 'W', 'a', 't', 'c', 'h']
}

/// The stop-loss worker an open position gets at startup: its side is
/// "buy" or "sell" in any case, and its quantity, cut to 32 bits, is not 0.
pub open spec fn startup_worker(side: Option<Seq<char>>, quantity: Option<u64>) -> Option<(TradeSide, u32)> {
    startup_worker_lowered(lowercase(text_or_empty(side)), quantity)
}

/// `startup_worker`, given the lowercased side text.
pub open spec fn startup_worker_lowered(s: Seq<char>, quantity: Option<u64>) -> Option<(TradeSide, u32)> {
    let q = (match quantity {
        Some(n) => n,
        None => 0u64,
    }) as u32;
    if s == seq!['b', 'u', 'y'] && q != 0 {
        Some((TradeSide::Buy, q))
    } else if s == seq!['s', 'e', 'l', 'l'] && q != 0 {
        Some((TradeSide::Sell, q))
    } else {
        None
    }
}

/// Decides whether an open position found at startup gets a stop-loss
/// worker, and on which side and quantity (see `startup_worker`).
pub fn startup_stop_loss(side: &Option<String>, quantity: Option<u64>) -> (r: Option<(TradeSide, u32)>)
    ensures
        r == startup_worker(field_view(*side), quantity),
{
    let text = match side {
        Some(s) => s.clone(),
        None => String::new(),
    };
    let lowered = to_lowercase(text.as_str());
    startup_from_lowered(lowered.as_str(), quantity)
}

/// `startup_stop_loss` on an already lowercased side text.
pub fn startup_from_lowered(side_lowered: &str, quantity: Option<u64>) -> (r: Option<(TradeSide, u32)>)
    ensures
        r == startup_worker_lowered(side_lowered@, quantity),
{
    proof {
        reveal_strlit("buy");
        reveal_strlit("sell");
    }
    assert("buy"@ =~= seq!['b', 'u', 'y']);
    assert("sell"@ =~= seq!['s', 'e', 'l', 'l']);
    let n: u64 = match quantity {
        Some(n) => n,
        None => 0,
    };
    let q: u32 = (n % 0x1_0000_0000) as u32;
    assert(q == n as u32) by (bit_vector)
        requires q == (n % 0x1_0000_0000) as u32;
    if q == 0 {
        return None;
    }
    let lowered = String::from_str(side_lowered);
    if lowered == String::from_str("buy") {
        Some((TradeSide::Buy, q))
    } else if lowered == String::from_str("sell") {
        Some((TradeSide::Sell, q))
    } else {
        None
    }
}


/// The view of a parsed pair of reply fields.
pub open spec fn fields_view(r: Result<(Option<String>, Option<String>), String>) -> Result<
    (Option<Seq<char>>, Option<Seq<char>>),
    Seq<char>,
> {
    match r {
        Ok((a, b)) => Ok((field_view(a), field_view(b))),
        Err(e) => Err(e@),
    }
}

/// The view of a parsed `sid` field.
pub open spec fn sid_view(r: Result<Option<String>, String>) -> Result<Option<Seq<char>>, Seq<char>> {
    match r {
        Ok(a) => Ok(field_view(a)),
        Err(e) => Err(e@),
    }
}

/// What `serde_json::from_str::<Value>` makes of a reply text: its `status`
/// and `message` members where they are strings, or the text of the parse
/// error.
pub uninterp spec fn reply_fields_of(text: Seq<char>) -> Result<(Option<Seq<char>>, Option<Seq<char>>), Seq<char>>;

/// Calls `serde_json::from_str::<serde_json::Value>` on a reply and reads
/// its `status` and `message` members as strings (`Value::as_str`), or gives
/// the parse error's `to_string`. The contract names the result: it depends
/// on the text alone.
#[verifier::external_body]
fn reply_fields(text: &str) -> (r: Result<(Option<String>, Option<String>), String>)
    ensures
        fields_view(r) == reply_fields_of(text@),
{
    match serde_json::from_str::<serde_json::Value>(text) {
        Ok(v) => Ok((v["status"].as_str().map(|s| s.to_string()), v["message"].as_str().map(|s| s.to_string()))),
        Err(e) => Err(e.to_string()),
    }
}

/// Reads the raw reply to an order placement: a reply that is not JSON
/// fails with the parse error's text; otherwise see `placement_verdict`.
pub fn read_placement_reply(body: &str, relogins: u32) -> (r: Result<ReplyOutcome, String>)
    ensures
        reply_fields_of(body@) matches Err(e) ==> r matches Err(x) && x@ == e,
        reply_fields_of(body@) matches Ok((st, m)) ==> r matches Ok(o) && o@ == placement_verdict(st, m, relogins),
{
    match reply_fields(body) {
        Ok((status, message)) => Ok(placement_outcome(&status, &message, relogins)),
        Err(e) => Err(e),
    }
}

/// Reads the raw reply to an order deletion: a reply that is not JSON fails
/// with the parse error's text; otherwise see `deletion_verdict`.
pub fn read_deletion_reply(body: &str, retry_enabled: bool, relogins: u32) -> (r: Result<DeleteOutcome, String>)
    ensures
        reply_fields_of(body@) matches Err(e) ==> r matches Err(x) && x@ == e,
        reply_fields_of(body@) matches Ok((st, m)) ==> r matches Ok(o) && o@ == deletion_verdict(st, m, retry_enabled, relogins),
{
    match reply_fields(body) {
        Ok((status, message)) => Ok(deletion_outcome(&status, &message, retry_enabled, relogins)),
        Err(e) => Err(e),
    }
}

/// What `serde_json::from_str::<Value>` makes of a handshake object: its
/// `sid` member where it is a string, or the text of the parse error.
pub uninterp spec fn sid_of(json: Seq<char>) -> Result<Option<Seq<char>>, Seq<char>>;

/// Calls `serde_json::from_str::<serde_json::Value>` on a handshake object
/// and reads its `sid` member as a string, or gives the parse error's
/// `to_string`. The contract names the result: it depends on the text alone.
#[verifier::external_body]
fn sid_field(json: &str) -> (r: Result<Option<String>, String>)
    ensures
        sid_view(r) == sid_of(json@),
{
    match serde_json::from_str::<serde_json::Value>(json) {
        Ok(v) => Ok(v["sid"].as_str().map(|s| s.to_string())),
        Err(e) => Err(e.to_string()),
    }
}

/// The session id a handshake reply gives, or why it gives none: no `{`,
/// an unclosed `{`, an object that is not JSON, or no string `sid` in it.
pub open spec fn handshake_result(body: Seq<char>) -> Result<Seq<char>, Seq<char>> {
    match handshake_part(body) {
        Err(HandshakeError::NoStart) => Err("No JSON start"@),
        Err(HandshakeError::NoEnd) => Err("No JSON end"@),
        Ok(j) => match sid_of(j) {
            Err(e) => Err("Handshake JSON parse failed: "@ + e),
            Ok(None) => Err("SID missing in handshake"@),
            Ok(Some(sid)) => Ok(sid),
        },
    }
}

/// The view of a text result.
pub open spec fn text_result(r: Result<String, String>) -> Result<Seq<char>, Seq<char>> {
    match r {
        Ok(a) => Ok(a@),
        Err(e) => Err(e@),
    }
}

/// Reads the session id from a polling handshake reply (see `handshake_result`).
pub fn handshake_sid(body: &str) -> (r: Result<String, String>)
    ensures
        text_result(r) == handshake_result(body@),
{
    match handshake_json(body) {
        Err(HandshakeError::NoStart) => Err(String::from_str("No JSON start")),
        Err(HandshakeError::NoEnd) => Err(String::from_str("No JSON end")),
        Ok(j) => match sid_field(j.as_str()) {
            Err(e) => Err(String::from_str("Handshake JSON parse failed: ").concat(e.as_str())),
            Ok(None) => Err(String::from_str("SID missing in handshake")),
            Ok(Some(sid)) => Ok(sid),
        },
    }
}

/// What `serde_json::from_str::<Value>` makes of a feed event array: its
/// first element where it is a string (the event name), and the
/// `data.InstrumentIdentifier` of its second element where that is a
/// string; none when the text is not JSON.
pub uninterp spec fn event_fields_of(array: Seq<char>) -> Option<(Option<Seq<char>>, Option<Seq<char>>)>;

/// Calls `serde_json::from_str::<serde_json::Value>` on a feed event array
/// and reads element 0 and element 1's `data.InstrumentIdentifier` as
/// strings. The contract names the result: it depends on the text alone.
#[verifier::external_body]
fn event_fields(array: &str) -> (r: Option<(Option<String>, Option<String>)>)
    ensures
        r is None <==> event_fields_of(array@) is None,
        r matches Some((a, b)) ==> event_fields_of(array@) == Some((field_view(a), field_view(b))),
{
    match serde_json::from_str::<serde_json::Value>(array) {
        Ok(v) => Some((
            v.get(0).and_then(|x| x.as_str()).map(|s| s.to_string()),
            v.get(1).and_then(|x| x.get("data")).and_then(|q| q.get("InstrumentIdentifier")).and_then(|x| x.as_str()).map(|s| s.to_string()),
        )),
        Err(_) => None,
    }
}

/// What a feed frame asks of the client.
pub enum FeedEvent {
    /// Answer the server's ping with "3".
    Ping,
    /// Nothing to do.
    Skip,
    /// The frame's array cannot be cut out: its last `]` lies more than one
    /// place before its first `[`.
    Malformed,
    /// A quote update for `instrument`; `array` is the event's JSON array.
    MarketWatch { instrument: String, array: String },
}

/// The abstract view of a feed event.
pub enum FeedVerdict {
    Ping,
    Skip,
    Malformed,
    MarketWatch { instrument: Seq<char>, array: Seq<char> },
}

impl View for FeedEvent {
    type V = FeedVerdict;

    open spec fn view(&self) -> FeedVerdict {
        match self {
            FeedEvent::Ping => FeedVerdict::Ping,
            FeedEvent::Skip => FeedVerdict::Skip,
            FeedEvent::Malformed => FeedVerdict::Malformed,
            FeedEvent::MarketWatch { instrument, array } => FeedVerdict::MarketWatch {
                instrument: instrument@,
                array: array@,
            },
        }
    }
}

/// How a feed frame is handled: pings are answered; pongs and other frames
/// skipped; an event frame carries a quote update only when its array is a
/// JSON array whose first element is "marketWatch" and whose second names an
/// instrument.
pub open spec fn feed_event_of(frame: Seq<char>) -> FeedVerdict {
    match frame_kind_of(frame) {
        FrameKind::Ping => FeedVerdict::Ping,
        FrameKind::Pong => FeedVerdict::Skip,
        FrameKind::Other => FeedVerdict::Skip,
        FrameKind::Event => match array_part_of(frame) {
            None => FeedVerdict::Skip,
            Some(None) => FeedVerdict::Malformed,
            Some(Some(a)) => match event_fields_of(a) {
                Some((Some(ev), Some(inst))) => if ev == market_watch_text() {
                    FeedVerdict::MarketWatch { instrument: inst, array: a }
                } else {
                    FeedVerdict::Skip
                },
                _ => FeedVerdict::Skip,
            },
        },
    }
}

/// Reads a feed frame (see `feed_event_of`).
pub fn feed_event(frame: &str) -> (r: FeedEvent)
    ensures
        r@ == feed_event_of(frame@),
{
    match frame_kind(frame) {
        FrameKind::Ping => FeedEvent::Ping,
        FrameKind::Pong => FeedEvent::Skip,
        FrameKind::Other => FeedEvent::Skip,
        FrameKind::Event => match event_array(frame) {
            ArrayPart::Missing => FeedEvent::Skip,
            ArrayPart::Inverted => FeedEvent::Malformed,
            ArrayPart::Part(a) => match event_fields(a.as_str()) {
                Some((Some(ev), Some(inst))) => {
                    proof { reveal_strlit("marketWatch"); }
                    assert("marketWatch"@ =~= market_watch_text());
                    if ev == String::from_str("marketWatch") {
                        FeedEvent::MarketWatch { instrument: inst, array: a }
                    } else {
                        FeedEvent::Skip
                    }
                },
                _ => FeedEvent::Skip,
            },
        },
    }
}

} // verus!
