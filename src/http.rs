//! The HTTP/1.1 subset in front of the store: reading a request head,
//! working out how much body is still on the wire, assembling the body,
//! routing, and framing responses.
use vstd::prelude::*;
use vstd::string::StringSliceAdditionalSpecFns;
use vstd::utf8::encode_utf8;

use crate::data::{Status, Ticket, TicketId};

verus! {

/// Most headers read from one request head.
pub const MAX_HEADERS: usize = 16;

// ---------------------------------------------------------------------------
// Decimal numbers
// ---------------------------------------------------------------------------

/// An ASCII digit `0`..`9`.
pub open spec fn is_digit(b: u8) -> bool {
    48 <= b <= 57
}

/// Value of a run of ASCII digits, most significant first.
pub open spec fn digits_value(s: Seq<u8>) -> nat
    decreases s.len(),
{
    if s.len() == 0 {
        0
    } else {
        digits_value(s.drop_last()) * 10 + (s.last() - 48) as nat
    }
}

/// A non-empty run of ASCII digits.
pub open spec fn all_digits(s: Seq<u8>) -> bool {
    s.len() > 0 && forall|i: int| 0 <= i < s.len() ==> is_digit(#[trigger] s[i])
}

/// The number that `s` spells in decimal digits, if it spells one no larger
/// than `max`.
pub open spec fn bounded_decimal(s: Seq<u8>, max: nat) -> Option<nat> {
    if all_digits(s) && digits_value(s) <= max {
        Some(digits_value(s))
    } else {
        None
    }
}

/// Unsigned integer text: an optional `+` sign, then decimal digits whose
/// value is at most `max`.
pub open spec fn unsigned_value(s: Seq<u8>, max: nat) -> Option<nat> {
    if s.len() > 0 && s[0] == 43 {
        bounded_decimal(s.drop_first(), max)
    } else {
        bounded_decimal(s, max)
    }
}

/// A decimal length: unsigned integer text no larger than `usize::MAX`.
pub open spec fn length_value(s: Seq<u8>) -> Option<nat> {
    unsigned_value(s, usize::MAX as nat)
}

proof fn lemma_digits_value_grows(s: Seq<u8>, i: int)
    requires
        0 <= i <= s.len(),
        forall|k: int| 0 <= k < s.len() ==> is_digit(#[trigger] s[k]),
    ensures
        digits_value(s.subrange(0, i)) <= digits_value(s),
    decreases s.len() - i,
{
    if i < s.len() {
        lemma_digits_value_grows(s, i + 1);
        assert(s.subrange(0, i + 1).drop_last() =~= s.subrange(0, i));
    } else {
        assert(s.subrange(0, i) =~= s);
    }
}

/// Reads `s` as decimal digits, giving its value if it is a non-empty run of
/// digits whose value is at most `max`.
pub fn parse_digits(s: &[u8], max: u64) -> (r: Option<u64>)
    ensures
        r == match bounded_decimal(s@, max as nat) {
            Some(v) => Some(v as u64),
            None => None::<u64>,
        },
{
    if s.len() == 0 {
        return None;
    }
    let mut acc: u64 = 0;
    let mut i: usize = 0;
    while i < s.len()
        invariant
            0 <= i <= s.len(),
            acc as nat == digits_value(s@.subrange(0, i as int)),
            acc <= max,
            forall|k: int| 0 <= k < i ==> is_digit(#[trigger] s@[k]),
        decreases s.len() - i,
    {
        let b = s[i];
        if b < 48 || b > 57 {
            assert(!all_digits(s@));
            return None;
        }
        let d = (b - 48) as u64;
        assert(s@.subrange(0, i + 1).drop_last() =~= s@.subrange(0, i as int));
        if d > max || acc > (max - d) / 10 {
            proof {
                if d <= max {
                    assert(acc * 10 + d > max) by (nonlinear_arith)
                        requires acc > (max - d) / 10, d <= max;
                }
                if all_digits(s@) {
                    lemma_digits_value_grows(s@, i + 1);
                }
            }
            return None;
        }
        proof {
            assert(acc * 10 + d <= max) by (nonlinear_arith)
                requires acc <= (max - d) / 10, d <= max;
        }
        acc = acc * 10 + d;
        i = i + 1;
    }
    assert(s@.subrange(0, s.len() as int) =~= s@);
    Some(acc)
}


/// Reads unsigned integer text: an optional `+` sign, then decimal digits
/// whose value is at most `max`.
pub fn parse_unsigned(s: &[u8], max: u64) -> (r: Option<u64>)
    ensures
        r == match unsigned_value(s@, max as nat) {
            Some(v) => Some(v as u64),
            None => None::<u64>,
        },
{
    let digits: &[u8] = if s.len() > 0 && s[0] == 43 {
        slice_from(s, 1)
    } else {
        s
    };
    proof {
        if s@.len() > 0 && s@[0] == 43 {
            assert(digits@ =~= s@.drop_first());
        }
    }
    parse_digits(digits, max)
}

/// Reads a `Content-Length` value.
pub fn parse_length(s: &[u8]) -> (r: Option<usize>)
    ensures
        r == match length_value(s@) {
            Some(v) => Some(v as usize),
            None => None::<usize>,
        },
{
    match parse_unsigned(s, usize::MAX as u64) {
        Some(v) => Some(v as usize),
        None => None,
    }
}

fn slice_from(s: &[u8], start: usize) -> (r: &[u8])
    requires
        start <= s@.len(),
    ensures
        r@ == s@.subrange(start as int, s@.len() as int),
{
    let (_, tail) = s.split_at(start);
    tail
}

// ---------------------------------------------------------------------------
// Headers
// ---------------------------------------------------------------------------

/// One request header as read off the wire.
pub struct HeaderField {
    pub name: Vec<u8>,
    pub value: Vec<u8>,
}

/// ASCII lower case of a byte; other bytes are kept.
pub open spec fn ascii_lower(b: u8) -> u8 {
    if 65 <= b <= 90 {
        (b + 32) as u8
    } else {
        b
    }
}

/// Equality of byte strings up to ASCII case.
pub open spec fn eq_ignoring_case(a: Seq<u8>, b: Seq<u8>) -> bool {
    a.len() == b.len() && forall|i: int| 0 <= i < a.len() ==> ascii_lower(#[trigger] a[i]) == ascii_lower(b[i])
}

/// `content-length`, in lower case.
pub open spec fn content_length_name() -> Seq<u8> {
    seq![99u8, 111, 110, 116, 101, 110, 116, 45, 108, 101, 110, 103, 116, 104]
}

/// Headers as pairs of name and value.
pub open spec fn header_pairs(headers: Seq<HeaderField>) -> Seq<(Seq<u8>, Seq<u8>)> {
    headers.map_values(|h: HeaderField| (h.name@, h.value@))
}

/// Index of the first header named `content-length` in any case, from `i` on.
pub open spec fn first_length_header(headers: Seq<(Seq<u8>, Seq<u8>)>, i: int) -> Option<int>
    decreases headers.len() - i,
{
    if i < 0 || i >= headers.len() {
        None
    } else if eq_ignoring_case(headers[i].0, content_length_name()) {
        Some(i)
    } else {
        first_length_header(headers, i + 1)
    }
}

/// Declared body length: the value of the first `Content-Length` header if
/// it reads as a length, else 0 (also when there is no such header).
pub open spec fn declared_length(headers: Seq<(Seq<u8>, Seq<u8>)>) -> nat {
    match first_length_header(headers, 0) {
        Some(i) => match length_value(headers[i].1) {
            Some(v) => v,
            None => 0,
        },
        None => 0,
    }
}

fn eq_ignore_case(a: &[u8], b: &[u8]) -> (r: bool)
    ensures
        r == eq_ignoring_case(a@, b@),
{
    if a.len() != b.len() {
        return false;
    }
    let mut i: usize = 0;
    while i < a.len()
        invariant
            a@.len() == b@.len(),
            0 <= i <= a@.len(),
            forall|k: int| 0 <= k < i ==> ascii_lower(#[trigger] a@[k]) == ascii_lower(b@[k]),
        decreases a.len() - i,
    {
        let x = a[i];
        let y = b[i];
        let lx = if 65 <= x && x <= 90 { x + 32 } else { x };
        let ly = if 65 <= y && y <= 90 { y + 32 } else { y };
        if lx != ly {
            return false;
        }
        i = i + 1;
    }
    true
}

/// The declared body length of a request with these headers.
pub fn content_length(headers: &[HeaderField]) -> (r: usize)
    ensures
        r == declared_length(header_pairs(headers@)),
{
    let name: Vec<u8> = vec![99u8, 111, 110, 116, 101, 110, 116, 45, 108, 101, 110, 103, 116, 104];
    assert(name@ == content_length_name());
    let ghost pairs = header_pairs(headers@);
    let mut i: usize = 0;
    while i < headers.len()
        invariant
            0 <= i <= headers@.len(),
            pairs == header_pairs(headers@),
            name@ == content_length_name(),
            first_length_header(pairs, 0) == first_length_header(pairs, i as int),
        decreases headers.len() - i,
    {
        if eq_ignore_case(headers[i].name.as_slice(), name.as_slice()) {
            return match parse_length(headers[i].value.as_slice()) {
                Some(v) => v,
                None => 0,
            };
        }
        i = i + 1;
    }
    0
}

// ---------------------------------------------------------------------------
// Routing
// ---------------------------------------------------------------------------

/// Where a request goes.
#[derive(Clone, Copy, Debug, PartialEq, Eq, Structural)]
pub enum Route {
    /// `POST /tickets`
    Create,
    /// `GET /tickets/<digits>`
    Get(TicketId),
    /// `PATCH /tickets/<digits>`
    Patch(TicketId),
    /// Anything else.
    Unmatched,
}

/// `POST`
pub open spec fn method_post() -> Seq<u8> {
    seq![80u8, 79, 83, 84]
}

/// `GET`
pub open spec fn method_get() -> Seq<u8> {
    seq![71u8, 69, 84]
}

/// `PATCH`
pub open spec fn method_patch() -> Seq<u8> {
    seq![80u8, 65, 84, 67, 72]
}

/// `/tickets`
pub open spec fn tickets_path() -> Seq<u8> {
    seq![47u8, 116, 105, 99, 107, 101, 116, 115]
}

/// The identifier in a path `/tickets/<digits>`, if the path has that
/// shape and the digits fit an identifier.
pub open spec fn path_ticket_id(path: Seq<u8>) -> Option<u64> {
    let prefix = tickets_path().push(47u8);
    if path.len() > prefix.len() && path.subrange(0, prefix.len() as int) == prefix {
        match bounded_decimal(path.subrange(prefix.len() as int, path.len() as int), u64::MAX as nat) {
            Some(v) => Some(v as u64),
            None => None,
        }
    } else {
        None
    }
}

/// The route of a request with this method and path.
pub open spec fn route_of(method: Seq<u8>, path: Seq<u8>) -> Route {
    if method == method_post() && path == tickets_path() {
        Route::Create
    } else if method == method_get() && path_ticket_id(path) is Some {
        Route::Get(TicketId(path_ticket_id(path)->Some_0))
    } else if method == method_patch() && path_ticket_id(path) is Some {
        Route::Patch(TicketId(path_ticket_id(path)->Some_0))
    } else {
        Route::Unmatched
    }
}

fn bytes_eq(a: &[u8], b: &[u8]) -> (r: bool)
    ensures
        r == (a@ == b@),
{
    if a.len() != b.len() {
        return false;
    }
    let mut i: usize = 0;
    while i < a.len()
        invariant
            a@.len() == b@.len(),
            0 <= i <= a@.len(),
            forall|k: int| 0 <= k < i ==> #[trigger] a@[k] == b@[k],
        decreases a.len() - i,
    {
        if a[i] != b[i] {
            return false;
        }
        i = i + 1;
    }
    assert(a@ =~= b@);
    true
}

/// The identifier named by a path `/tickets/<digits>`.
pub fn ticket_id_in_path(path: &[u8]) -> (r: Option<TicketId>)
    ensures
        r == match path_ticket_id(path@) {
            Some(v) => Some(TicketId(v)),
            None => None::<TicketId>,
        },
{
    let prefix: Vec<u8> = vec![47u8, 116, 105, 99, 107, 101, 116, 115, 47];
    assert(prefix@ =~= tickets_path().push(47u8));
    if path.len() <= prefix.len() {
        return None;
    }
    let (head, tail) = path.split_at(prefix.len());
    if !bytes_eq(head, prefix.as_slice()) {
        return None;
    }
    match parse_digits(tail, u64::MAX) {
        Some(v) => Some(TicketId(v)),
        None => None,
    }
}

/// Matches a method and a path against the route table.
pub fn route(method: &[u8], path: &[u8]) -> (r: Route)
    ensures
        r == route_of(method@, path@),
{
    let post: Vec<u8> = vec![80u8, 79, 83, 84];
    let get: Vec<u8> = vec![71u8, 69, 84];
    let patch: Vec<u8> = vec![80u8, 65, 84, 67, 72];
    let tickets: Vec<u8> = vec![47u8, 116, 105, 99, 107, 101, 116, 115];
    assert(post@ =~= method_post());
    assert(get@ =~= method_get());
    assert(patch@ =~= method_patch());
    assert(tickets@ =~= tickets_path());
    if bytes_eq(method, post.as_slice()) && bytes_eq(path, tickets.as_slice()) {
        return Route::Create;
    }
    let id = ticket_id_in_path(path);
    match id {
        Some(id) => {
            if bytes_eq(method, get.as_slice()) {
                Route::Get(id)
            } else if bytes_eq(method, patch.as_slice()) {
                Route::Patch(id)
            } else {
                Route::Unmatched
            }
        },
        None => Route::Unmatched,
    }
}

// ---------------------------------------------------------------------------
// Request head
// ---------------------------------------------------------------------------

/// A request head as the parser hands it over: method, path, headers, and
/// the offset at which the body starts.
pub struct RawHead {
    pub method: Option<Vec<u8>>,
    pub path: Option<Vec<u8>>,
    pub headers: Vec<HeaderField>,
    pub body_start: usize,
}

/// A request head in plain values: method, path, header pairs, body offset.
pub open spec fn raw_view(h: RawHead) -> (Option<Seq<u8>>, Option<Seq<u8>>, Seq<(Seq<u8>, Seq<u8>)>, nat) {
    (
        match h.method {
            Some(m) => Some(m@),
            None => None,
        },
        match h.path {
            Some(p) => Some(p@),
            None => None,
        },
        header_pairs(h.headers@),
        h.body_start as nat,
    )
}

/// What the request parser makes of the bytes `buf` with room for
/// `max_headers` headers: the head if it is complete and well formed.
pub uninterp spec fn parsed_head(buf: Seq<u8>, max_headers: nat) -> Option<
    (Option<Seq<u8>>, Option<Seq<u8>>, Seq<(Seq<u8>, Seq<u8>)>, nat),
>;

/// What the layer needs from a request head.
#[derive(Clone, Copy, Debug, PartialEq, Eq, Structural)]
pub struct RequestHead {
    pub route: Route,
    pub content_length: usize,
    pub body_start: usize,
}

/// The request head that a parsed head stands for in a buffer of
/// `buf_len` bytes: `None` if it lacks a method or a path, or claims a body
/// offset past the buffer.
pub open spec fn head_of(
    h: (Option<Seq<u8>>, Option<Seq<u8>>, Seq<(Seq<u8>, Seq<u8>)>, nat),
    buf_len: nat,
) -> Option<RequestHead> {
    if h.3 > buf_len {
        None
    } else {
        match (h.0, h.1) {
            (Some(m), Some(p)) => Some(
                RequestHead {
                    route: route_of(m, p),
                    content_length: declared_length(h.2) as usize,
                    body_start: h.3 as usize,
                },
            ),
            _ => None,
        }
    }
}

/// Relies on `httparse::Request::parse`: on a complete head it gives the
/// method, the path, the headers and the offset of the body; the result is a
/// function of the bytes and the header room alone.
#[verifier::external_body]
fn httparse_head(buf: &[u8], max_headers: usize) -> (r: Option<RawHead>)
    ensures
        match r {
            Some(h) => parsed_head(buf@, max_headers as nat) == Some(raw_view(h)),
            None => parsed_head(buf@, max_headers as nat) is None,
        },
{
    let mut headers = vec![httparse::EMPTY_HEADER; max_headers];
    let mut request = httparse::Request::new(&mut headers);
    match request.parse(buf) {
        Ok(httparse::Status::Complete(body_start)) => Some(RawHead {
            method: request.method.map(|m| m.as_bytes().to_vec()),
            path: request.path.map(|p| p.as_bytes().to_vec()),
            headers: request.headers.iter().map(|h| HeaderField { name: h.name.as_bytes().to_vec(), value: h.value.to_vec() }).collect(),
            body_start,
        }),
        Ok(httparse::Status::Partial) => None,
        Err(_) => None,
    }
}

/// Turns a parsed head into what the layer needs from it, for a buffer of
/// `buf_len` bytes.
pub fn classify_head(raw: &RawHead, buf_len: usize) -> (r: Option<RequestHead>)
    ensures
        r == head_of(raw_view(*raw), buf_len as nat),
{
    if raw.body_start > buf_len {
        return None;
    }
    match (&raw.method, &raw.path) {
        (Some(m), Some(p)) => {
            let route = route(m.as_slice(), p.as_slice());
            let content_length = content_length(raw.headers.as_slice());
            Some(RequestHead { route, content_length, body_start: raw.body_start })
        },
        _ => None,
    }
}

/// Reads the request head at the start of `buf`. `None` is a protocol
/// failure: the head is incomplete or malformed.
pub fn read_head(buf: &[u8]) -> (r: Option<RequestHead>)
    ensures
        r == match parsed_head(buf@, MAX_HEADERS as nat) {
            Some(h) => head_of(h, buf@.len()),
            None => None,
        },
{
    match httparse_head(buf, MAX_HEADERS) {
        Some(raw) => classify_head(&raw, buf.len()),
        None => None,
    }
}

// ---------------------------------------------------------------------------
// Body
// ---------------------------------------------------------------------------

/// Bytes of the body still on the wire when `buffered` bytes of a body of
/// `declared` bytes have been read.
pub fn missing_body_len(buffered: usize, declared: usize) -> (r: usize)
    ensures
        buffered < declared ==> r == declared - buffered,
        buffered >= declared ==> r == 0,
{
    if buffered < declared {
        declared - buffered
    } else {
        0
    }
}

/// Index of the first non-zero byte of `s` at or after `i`, or `s.len()`.
pub open spec fn first_nonzero(s: Seq<u8>, i: int) -> int
    decreases s.len() - i,
{
    if i < 0 || i >= s.len() {
        s.len() as int
    } else if s[i] != 0 {
        i
    } else {
        first_nonzero(s, i + 1)
    }
}

/// One past the last non-zero byte of `s` before `j`, or 0.
pub open spec fn end_nonzero(s: Seq<u8>, j: int) -> int
    decreases j,
{
    if j <= 0 || j > s.len() {
        0
    } else if s[j - 1] != 0 {
        j
    } else {
        end_nonzero(s, j - 1)
    }
}

/// `s` without its leading and trailing zero bytes.
pub open spec fn trim_zeros(s: Seq<u8>) -> Seq<u8> {
    let i = first_nonzero(s, 0);
    let j = end_nonzero(s, s.len() as int);
    if i < j {
        s.subrange(i, j)
    } else {
        Seq::empty()
    }
}

proof fn lemma_first_nonzero_bounds(s: Seq<u8>, i: int)
    requires
        0 <= i <= s.len(),
    ensures
        i <= first_nonzero(s, i) <= s.len(),
    decreases s.len() - i,
{
    if i < s.len() && s[i] == 0 {
        lemma_first_nonzero_bounds(s, i + 1);
    }
}

proof fn lemma_end_nonzero_bounds(s: Seq<u8>, j: int)
    requires
        0 <= j <= s.len(),
    ensures
        0 <= end_nonzero(s, j) <= j,
    decreases j,
{
    if j > 0 && s[j - 1] == 0 {
        lemma_end_nonzero_bounds(s, j - 1);
    }
}

/// The whole body: the bytes of `buf` from `body_start` on, followed by
/// `rest` (what a completion read brought), without the zero padding at
/// either end.
pub fn assemble_body(buf: &[u8], body_start: usize, rest: &[u8]) -> (r: Vec<u8>)
    requires
        body_start <= buf@.len(),
        buf@.len() + rest@.len() <= usize::MAX,
    ensures
        r@ == trim_zeros(buf@.subrange(body_start as int, buf@.len() as int) + rest@),
{
    let ghost all = buf@.subrange(body_start as int, buf@.len() as int) + rest@;
    let mut joined: Vec<u8> = Vec::new();
    let mut k: usize = body_start;
    while k < buf.len()
        invariant
            body_start <= k <= buf@.len(),
            joined@ == buf@.subrange(body_start as int, k as int),
        decreases buf.len() - k,
    {
        joined.push(buf[k]);
        k = k + 1;
        assert(joined@ =~= buf@.subrange(body_start as int, k as int));
    }
    let mut k: usize = 0;
    while k < rest.len()
        invariant
            body_start <= buf@.len(),
            buf@.len() + rest@.len() <= usize::MAX,
            0 <= k <= rest@.len(),
            joined@ == buf@.subrange(body_start as int, buf@.len() as int) + rest@.subrange(0, k as int),
        decreases rest.len() - k,
    {
        joined.push(rest[k]);
        k = k + 1;
        assert(joined@ =~= buf@.subrange(body_start as int, buf@.len() as int) + rest@.subrange(0, k as int));
    }
    assert(rest@.subrange(0, rest@.len() as int) =~= rest@);
    assert(joined@ =~= all);
    let mut i: usize = 0;
    while i < joined.len() && joined[i] == 0
        invariant
            joined@ == all,
            0 <= i <= joined@.len(),
            first_nonzero(all, 0) == first_nonzero(all, i as int),
        decreases joined.len() - i,
    {
        i = i + 1;
    }
    let mut j: usize = joined.len();
    while j > 0 && joined[j - 1] == 0
        invariant
            joined@ == all,
            0 <= j <= joined@.len(),
            end_nonzero(all, all.len() as int) == end_nonzero(all, j as int),
        decreases j,
    {
        j = j - 1;
    }
    proof {
        lemma_first_nonzero_bounds(all, 0);
        lemma_end_nonzero_bounds(all, all.len() as int);
    }
    let mut r: Vec<u8> = Vec::new();
    if i < j {
        let mut k: usize = i;
        while k < j
            invariant
                joined@ == all,
                i <= k <= j <= joined@.len(),
                r@ == all.subrange(i as int, k as int),
            decreases j - k,
        {
            r.push(joined[k]);
            k = k + 1;
            assert(r@ =~= all.subrange(i as int, k as int));
        }
    } else {
        assert(r@ =~= Seq::<u8>::empty());
    }
    r
}

// ---------------------------------------------------------------------------
// Responses
// ---------------------------------------------------------------------------

/// `HTTP/1.1 `
pub open spec fn text_http11() -> Seq<u8> {
    seq![72u8, 84, 84, 80, 47, 49, 46, 49, 32]
}

/// CR LF
pub open spec fn text_crlf() -> Seq<u8> {
    seq![13u8, 10]
}

/// `Content-Length: `
pub open spec fn text_content_length() -> Seq<u8> {
    seq![67u8, 111, 110, 116, 101, 110, 116, 45, 76, 101, 110, 103, 116, 104, 58, 32]
}

/// `200 OK`
pub open spec fn text_status_ok() -> Seq<u8> {
    seq![50u8, 48, 48, 32, 79, 75]
}

/// `201 Created`
pub open spec fn text_status_created() -> Seq<u8> {
    seq![50u8, 48, 49, 32, 67, 114, 101, 97, 116, 101, 100]
}

/// `204 No Content`
pub open spec fn text_status_no_content() -> Seq<u8> {
    seq![50u8, 48, 52, 32, 78, 111, 32, 67, 111, 110, 116, 101, 110, 116]
}

/// `404 Not Found`
pub open spec fn text_status_not_found() -> Seq<u8> {
    seq![52u8, 48, 52, 32, 78, 111, 116, 32, 70, 111, 117, 110, 100]
}

/// `503 Service Unavailable`
pub open spec fn text_status_unavailable() -> Seq<u8> {
    seq![53u8, 48, 51, 32, 83, 101, 114, 118, 105, 99, 101, 32, 85, 110, 97, 118, 97, 105, 108, 97, 98, 108, 101]
}

/// `Not Found`
pub open spec fn text_not_found() -> Seq<u8> {
    seq![78u8, 111, 116, 32, 70, 111, 117, 110, 100]
}

/// `{"id":`
pub open spec fn text_json_id() -> Seq<u8> {
    seq![123u8, 34, 105, 100, 34, 58]
}

/// `,"title":`
pub open spec fn text_json_title() -> Seq<u8> {
    seq![44u8, 34, 116, 105, 116, 108, 101, 34, 58]
}

/// `,"description":`
pub open spec fn text_json_description() -> Seq<u8> {
    seq![44u8, 34, 100, 101, 115, 99, 114, 105, 112, 116, 105, 111, 110, 34, 58]
}

/// `,"status":"`
pub open spec fn text_json_status() -> Seq<u8> {
    seq![44u8, 34, 115, 116, 97, 116, 117, 115, 34, 58, 34]
}

/// `"}`
pub open spec fn text_json_end() -> Seq<u8> {
    seq![34u8, 125]
}

/// `ToDo`
pub open spec fn text_todo() -> Seq<u8> {
    seq![84u8, 111, 68, 111]
}

/// `InProgress`
pub open spec fn text_in_progress() -> Seq<u8> {
    seq![73u8, 110, 80, 114, 111, 103, 114, 101, 115, 115]
}

/// `Done`
pub open spec fn text_done() -> Seq<u8> {
    seq![68u8, 111, 110, 101]
}

/// Decimal digits of `n`, most significant first, without leading zeros.
pub open spec fn decimal(n: nat) -> Seq<u8>
    decreases n,
{
    if n < 10 {
        seq![(48 + n) as u8]
    } else {
        decimal(n / 10).push((48 + n % 10) as u8)
    }
}

/// The literal name of a status.
pub open spec fn status_name(s: Status) -> Seq<u8> {
    match s {
        Status::ToDo => text_todo(),
        Status::InProgress => text_in_progress(),
        Status::Done => text_done(),
    }
}

/// Lower-case hexadecimal digit of `d`, for `d < 16`.
pub open spec fn hex_digit(d: u8) -> u8 {
    if d < 10 {
        (48 + d) as u8
    } else {
        (87 + d) as u8
    }
}

/// How one byte of UTF-8 text stands inside a JSON string: `"` and `\` and
/// the control bytes below 0x20 are escaped (the five with a short form as
/// `\b`, `\t`, `\n`, `\f`, `\r`, the rest as `\u00xx`), all other bytes
/// stand as they are.
pub open spec fn json_escaped_byte(b: u8) -> Seq<u8> {
    if b == 34 {
        seq![92u8, 34]
    } else if b == 92 {
        seq![92u8, 92]
    } else if b == 8 {
        seq![92u8, 98]
    } else if b == 9 {
        seq![92u8, 116]
    } else if b == 10 {
        seq![92u8, 110]
    } else if b == 12 {
        seq![92u8, 102]
    } else if b == 13 {
        seq![92u8, 114]
    } else if b < 32 {
        seq![92u8, 117, 48, 48, hex_digit(b / 16), hex_digit(b % 16)]
    } else {
        seq![b]
    }
}

/// The bytes of UTF-8 text, each escaped for a JSON string.
pub open spec fn json_escaped(s: Seq<u8>) -> Seq<u8>
    decreases s.len(),
{
    if s.len() == 0 {
        Seq::empty()
    } else {
        json_escaped(s.drop_last()) + json_escaped_byte(s.last())
    }
}

/// JSON string of UTF-8 text: the escaped bytes between double quotes.
pub open spec fn json_string(s: Seq<u8>) -> Seq<u8> {
    seq![34u8] + json_escaped(s) + seq![34u8]
}

/// JSON object of a record whose title and description are given as JSON
/// text already.
pub open spec fn ticket_json_text(id: u64, title: Seq<u8>, description: Seq<u8>, status: Status) -> Seq<u8> {
    text_json_id() + decimal(id as nat) + text_json_title() + title + text_json_description()
        + description + text_json_status() + status_name(status) + text_json_end()
}

/// JSON object of a record: `{"id":..,"title":..,"description":..,"status":".."}`.
pub open spec fn ticket_json(t: Ticket) -> Seq<u8> {
    ticket_json_text(t.id.0, json_string(encode_utf8(t.title.0@)), json_string(encode_utf8(t.description.0@)), t.status)
}

/// A whole response: status line, `Content-Length` of the body, blank line, body.
pub open spec fn response_text(status: Seq<u8>, body: Seq<u8>) -> Seq<u8> {
    text_http11() + status + text_crlf() + text_content_length() + decimal(body.len()) + text_crlf()
        + text_crlf() + body
}

/// A result of the layer, ready to be framed.
pub enum Response {
    /// 200, with the record.
    Found(Ticket),
    /// 201, with the new identifier.
    Created(TicketId),
    /// 204, with an empty body.
    NoContent,
    /// 404, with the body `Not Found`.
    NotFound,
    /// 503, with an empty body: no identifier is left to assign.
    Unavailable,
}

/// The bytes sent for a response.
pub open spec fn response_bytes(r: Response) -> Seq<u8> {
    match r {
        Response::Found(t) => response_text(text_status_ok(), ticket_json(t)),
        Response::Created(id) => response_text(text_status_created(), decimal(id.0 as nat)),
        Response::NoContent => response_text(text_status_no_content(), Seq::empty()),
        Response::NotFound => response_text(text_status_not_found(), text_not_found()),
        Response::Unavailable => response_text(text_status_unavailable(), Seq::empty()),
    }
}

fn append(out: &mut Vec<u8>, bytes: &[u8])
    ensures
        final(out)@ == old(out)@ + bytes@,
{
    let mut i: usize = 0;
    while i < bytes.len()
        invariant
            0 <= i <= bytes@.len(),
            out@ == old(out)@ + bytes@.subrange(0, i as int),
        decreases bytes.len() - i,
    {
        out.push(bytes[i]);
        i = i + 1;
        assert(out@ =~= old(out)@ + bytes@.subrange(0, i as int));
    }
    assert(bytes@.subrange(0, bytes@.len() as int) =~= bytes@);
}

/// Appends the decimal digits of `n`.
pub fn write_decimal(out: &mut Vec<u8>, n: u64)
    ensures
        final(out)@ == old(out)@ + decimal(n as nat),
    decreases n,
{
    if n >= 10 {
        write_decimal(out, n / 10);
    }
    out.push((48 + n % 10) as u8);
    assert(out@ =~= old(out)@ + decimal(n as nat));
}

/// Relies on `serde_json::to_vec` on a string slice: the string's bytes
/// between double quotes, with `"`, `\\` and control bytes escaped as its
/// escape table gives them. Writing into a `Vec` does not fail.
#[verifier::external_body]
fn json_quoted(s: &str) -> (r: Vec<u8>)
    ensures
        r@ == json_string(s.spec_bytes()),
{
    match serde_json::to_vec(s) {
        Ok(v) => v,
        Err(_) => Vec::new(),
    }
}

fn append_status(out: &mut Vec<u8>, status: Status)
    ensures
        final(out)@ == old(out)@ + status_name(status),
{
    let name: Vec<u8> = match status {
        Status::ToDo => vec![84u8, 111, 68, 111],
        Status::InProgress => vec![73u8, 110, 80, 114, 111, 103, 114, 101, 115, 115],
        Status::Done => vec![68u8, 111, 110, 101],
    };
    assert(name@ =~= status_name(status));
    append(out, name.as_slice());
}

/// The JSON object of a record with identifier `id` and status `status`,
/// whose title and description are given as JSON text already.
pub fn ticket_json_with(id: TicketId, title: &[u8], description: &[u8], status: Status) -> (r: Vec<u8>)
    ensures
        r@ == ticket_json_text(id.0, title@, description@, status),
{
    let id_key: Vec<u8> = vec![123u8, 34, 105, 100, 34, 58];
    let title_key: Vec<u8> = vec![44u8, 34, 116, 105, 116, 108, 101, 34, 58];
    let description_key: Vec<u8> = vec![44u8, 34, 100, 101, 115, 99, 114, 105, 112, 116, 105, 111, 110, 34, 58];
    let status_key: Vec<u8> = vec![44u8, 34, 115, 116, 97, 116, 117, 115, 34, 58, 34];
    let end: Vec<u8> = vec![34u8, 125];
    assert(id_key@ =~= text_json_id());
    assert(title_key@ =~= text_json_title());
    assert(description_key@ =~= text_json_description());
    assert(status_key@ =~= text_json_status());
    assert(end@ =~= text_json_end());
    let mut out: Vec<u8> = Vec::new();
    append(&mut out, id_key.as_slice());
    write_decimal(&mut out, id.0);
    append(&mut out, title_key.as_slice());
    append(&mut out, title);
    append(&mut out, description_key.as_slice());
    append(&mut out, description);
    append(&mut out, status_key.as_slice());
    append_status(&mut out, status);
    append(&mut out, end.as_slice());
    assert(out@ =~= ticket_json_text(id.0, title@, description@, status));
    out
}

/// Frames a response around a body: status line, `Content-Length`, blank
/// line, body.
pub fn frame_response(status: &[u8], body: &[u8]) -> (r: Vec<u8>)
    ensures
        r@ == response_text(status@, body@),
{
    let version: Vec<u8> = vec![72u8, 84, 84, 80, 47, 49, 46, 49, 32];
    let crlf: Vec<u8> = vec![13u8, 10];
    let length_label: Vec<u8> = vec![67u8, 111, 110, 116, 101, 110, 116, 45, 76, 101, 110, 103, 116, 104, 58, 32];
    assert(version@ =~= text_http11());
    assert(crlf@ =~= text_crlf());
    assert(length_label@ =~= text_content_length());
    let mut out: Vec<u8> = Vec::new();
    append(&mut out, version.as_slice());
    append(&mut out, status);
    append(&mut out, crlf.as_slice());
    append(&mut out, length_label.as_slice());
    write_decimal(&mut out, body.len() as u64);
    append(&mut out, crlf.as_slice());
    append(&mut out, crlf.as_slice());
    append(&mut out, body);
    assert(out@ =~= response_text(status@, body@));
    out
}

/// The bytes to send for a response.
pub fn build_response(response: &Response) -> (r: Vec<u8>)
    ensures
        r@ == response_bytes(*response),
{
    match response {
        Response::Found(t) => {
            let status: Vec<u8> = vec![50u8, 48, 48, 32, 79, 75];
            assert(status@ =~= text_status_ok());
            let title = json_quoted(t.title.0.as_str());
            let description = json_quoted(t.description.0.as_str());
            let body = ticket_json_with(t.id, title.as_slice(), description.as_slice(), t.status);
            frame_response(status.as_slice(), body.as_slice())
        },
        Response::Created(id) => {
            let status: Vec<u8> = vec![50u8, 48, 49, 32, 67, 114, 101, 97, 116, 101, 100];
            assert(status@ =~= text_status_created());
            let mut body: Vec<u8> = Vec::new();
            write_decimal(&mut body, id.0);
            assert(body@ =~= decimal(id.0 as nat));
            frame_response(status.as_slice(), body.as_slice())
        },
        Response::NoContent => {
            let status: Vec<u8> = vec![50u8, 48, 52, 32, 78, 111, 32, 67, 111, 110, 116, 101, 110, 116];
            assert(status@ =~= text_status_no_content());
            let body: Vec<u8> = Vec::new();
            frame_response(status.as_slice(), body.as_slice())
        },
        Response::NotFound => {
            let status: Vec<u8> = vec![52u8, 48, 52, 32, 78, 111, 116, 32, 70, 111, 117, 110, 100];
            assert(status@ =~= text_status_not_found());
            let body: Vec<u8> = vec![78u8, 111, 116, 32, 70, 111, 117, 110, 100];
            assert(body@ =~= text_not_found());
            frame_response(status.as_slice(), body.as_slice())
        },
        Response::Unavailable => {
            let status: Vec<u8> = vec![53u8, 48, 51, 32, 83, 101, 114, 118, 105, 99, 101, 32, 85, 110, 97, 118, 97, 105, 108, 97, 98, 108, 101];
            assert(status@ =~= text_status_unavailable());
            let body: Vec<u8> = Vec::new();
            frame_response(status.as_slice(), body.as_slice())
        },
    }
}

} // verus!
