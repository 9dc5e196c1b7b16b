//! The binding-discovery exchange that tells a client its public address: the request it
//! sends, the reading of the response, and the order in which servers are tried.

use crate::text::{decimal, push_decimal, texts, to_chars, to_text};
use vstd::prelude::*;

verus! {

/// The eight bytes that open a binding request: the message type of a request, a body
/// length of zero, and the magic cookie.
pub open spec fn request_header() -> Seq<u8> {
    seq![0x00u8, 0x01u8, 0x00u8, 0x00u8, 0x21u8, 0x12u8, 0xa4u8, 0x42u8]
}

/// The binding request with the transaction identifier `transaction`.
pub open spec fn request_bytes(transaction: Seq<u8>) -> Seq<u8> {
    request_header() + transaction
}

/// The binding request with the transaction identifier `transaction`.
pub fn binding_request(transaction: &[u8; 12]) -> (out: Vec<u8>)
    ensures
        out@ == request_bytes(transaction@),
        out.len() == 20,
{
    let mut out: Vec<u8> = Vec::new();
    out.push(0x00);
    out.push(0x01);
    out.push(0x00);
    out.push(0x00);
    out.push(0x21);
    out.push(0x12);
    out.push(0xa4);
    out.push(0x42);
    assert(out@ =~= request_header());
    let mut i: usize = 0;
    while i < 12
        invariant
            i <= 12,
            out@ == request_header() + transaction@.take(i as int),
        decreases 12 - i,
    {
        out.push(transaction[i]);
        assert(out@ =~= request_header() + transaction@.take(i + 1));
        i += 1;
    }
    assert(transaction@.take(12) =~= transaction@);
    out
}

/// `rand::random::<u8>()` draws a byte from the thread's random number generator. Nothing
/// is claimed of the byte.
#[verifier::external_body]
fn random_byte() -> u8 {
    rand::random::<u8>()
}

/// A binding request with a transaction identifier of twelve random bytes.
pub fn new_binding_request() -> (out: Vec<u8>)
    ensures
        out.len() == 20,
        out@.take(8) == request_header(),
{
    let mut transaction: [u8; 12] = [0u8; 12];
    let mut i: usize = 0;
    while i < 12
        invariant
            i <= 12,
        decreases 12 - i,
    {
        transaction[i] = random_byte();
        i += 1;
    }
    let out = binding_request(&transaction);
    assert(out@.take(8) =~= request_header());
    out
}

/// Why a response gave no address.
#[derive(Debug, PartialEq, Eq, Clone, Copy)]
pub enum BindingError {
    /// The response has fewer than 20 bytes; the value is their number.
    TooShort(usize),
    /// The response is not a binding response.
    NotBindingResponse,
    /// The mapped address is an IPv6 address.
    Ipv6Unsupported,
    /// The response holds no mapped address.
    NoMappedAddress,
}

/// The type of the attribute that begins at `pos`.
pub open spec fn attribute_type(r: Seq<u8>, pos: int) -> nat {
    r[pos] as nat * 256 + r[pos + 1] as nat
}

/// The length of the value of the attribute that begins at `pos`.
pub open spec fn attribute_length(r: Seq<u8>, pos: int) -> nat {
    r[pos + 2] as nat * 256 + r[pos + 3] as nat
}

/// `len` rounded up to a multiple of four.
pub open spec fn padded(len: nat) -> nat {
    if len % 4 == 0 {
        len
    } else {
        (len + 4 - len % 4) as nat
    }
}

/// Whether a mapped-address attribute begins at `pos`: the type is `0x0020` and the value
/// has at least eight bytes.
pub open spec fn is_mapped_address(r: Seq<u8>, pos: int) -> bool {
    attribute_type(r, pos) == 0x0020 && attribute_length(r, pos) >= 8
}

/// The number of bytes of `r` from `pos` on.
pub open spec fn bytes_left(r: Seq<u8>, pos: int) -> nat {
    if 0 <= pos <= r.len() {
        (r.len() - pos) as nat
    } else {
        0
    }
}

/// The address that the attributes from `pos` on give. Attributes are read one after the
/// other, as long as eight bytes are left. The first mapped-address attribute of the IPv4
/// family gives the address: its four address bytes, each combined by exclusive or with
/// the byte of the magic cookie at the same place. One of the IPv6 family ends the search
/// with an error; so does one whose address bytes lie beyond the end of the response.
/// Every other attribute is passed over, with the padding behind its value.
pub open spec fn mapped_address_from(r: Seq<u8>, pos: int) -> Result<(u8, u8, u8, u8), BindingError>
    decreases bytes_left(r, pos),
{
    if pos < 0 || pos + 8 > r.len() {
        Err(BindingError::NoMappedAddress)
    } else if is_mapped_address(r, pos) && r[pos + 5] == 1 {
        if pos + 12 <= r.len() {
            Ok(
                (
                    r[pos + 8] ^ 0x21u8,
                    r[pos + 9] ^ 0x12u8,
                    r[pos + 10] ^ 0xa4u8,
                    r[pos + 11] ^ 0x42u8,
                ),
            )
        } else {
            Err(BindingError::NoMappedAddress)
        }
    } else if is_mapped_address(r, pos) && r[pos + 5] == 2 {
        Err(BindingError::Ipv6Unsupported)
    } else {
        mapped_address_from(r, pos + 4 + padded(attribute_length(r, pos)))
    }
}

/// The address that the response `r` gives. A response has at least 20 bytes and its first
/// two bytes are `0x01 0x01`; its attributes begin at byte 20.
pub open spec fn mapped_address(r: Seq<u8>) -> Result<(u8, u8, u8, u8), BindingError> {
    if r.len() < 20 {
        Err(BindingError::TooShort(r.len() as usize))
    } else if r[0] != 1 || r[1] != 1 {
        Err(BindingError::NotBindingResponse)
    } else {
        mapped_address_from(r, 20)
    }
}

/// The address that the response gives, as four bytes.
pub fn read_mapped_address(response: &[u8]) -> (r: Result<(u8, u8, u8, u8), BindingError>)
    ensures
        r == mapped_address(response@),
{
    let size = response.len();
    if size < 20 {
        return Err(BindingError::TooShort(size));
    }
    if response[0] != 0x01 || response[1] != 0x01 {
        return Err(BindingError::NotBindingResponse);
    }
    let mut pos: usize = 20;
    while pos <= size && size - pos >= 8
        invariant
            size == response.len(),
            20 <= pos,
            mapped_address(response@) == mapped_address_from(response@, pos as int),
        decreases size - pos,
    {
        let attr_type: u32 = (response[pos] as u32) * 256 + (response[pos + 1] as u32);
        let attr_length: usize = (response[pos + 2] as usize) * 256 + (response[pos + 3] as usize);
        if attr_type == 0x0020 && attr_length >= 8 {
            let family = response[pos + 5];
            if family == 0x01 {
                if size - pos >= 12 {
                    return Ok(
                        (
                            response[pos + 8] ^ 0x21u8,
                            response[pos + 9] ^ 0x12u8,
                            response[pos + 10] ^ 0xa4u8,
                            response[pos + 11] ^ 0x42u8,
                        ),
                    );
                } else {
                    return Err(BindingError::NoMappedAddress);
                }
            } else if family == 0x02 {
                return Err(BindingError::Ipv6Unsupported);
            }
        }
        let mut step: usize = 4 + attr_length;
        if attr_length % 4 != 0 {
            step = step + (4 - attr_length % 4);
        }
        assert(step == 4 + padded(attribute_length(response@, pos as int)));
        if step > size - pos {
            assert(mapped_address_from(response@, pos + step) == Err::<
                (u8, u8, u8, u8),
                BindingError,
            >(BindingError::NoMappedAddress));
            return Err(BindingError::NoMappedAddress);
        }
        pos = pos + step;
    }
    Err(BindingError::NoMappedAddress)
}

/// The four bytes of an address written in decimal, with dots between them.
pub open spec fn dotted_quad(a: (u8, u8, u8, u8)) -> Seq<char> {
    decimal(a.0 as nat) + seq!['.'] + decimal(a.1 as nat) + seq!['.'] + decimal(a.2 as nat)
        + seq!['.'] + decimal(a.3 as nat)
}

/// The four bytes of an address written in decimal, with dots between them.
pub fn format_address(a: (u8, u8, u8, u8)) -> (out: String)
    ensures
        out@ == dotted_quad(a),
{
    let mut text: Vec<char> = Vec::new();
    push_decimal(&mut text, a.0 as u64);
    text.push('.');
    push_decimal(&mut text, a.1 as u64);
    text.push('.');
    push_decimal(&mut text, a.2 as u64);
    text.push('.');
    push_decimal(&mut text, a.3 as u64);
    assert(text@ =~= dotted_quad(a));
    to_text(text.as_slice())
}

/// The public address that the response gives, written with dots, or the reason why it
/// gives none.
pub fn ip_from_stun_response(response: &[u8]) -> (r: Result<String, BindingError>)
    ensures
        match r {
            Ok(ip) => mapped_address(response@) is Ok && ip@ == dotted_quad(
                mapped_address(response@).unwrap(),
            ),
            Err(e) => mapped_address(response@) == Err::<(u8, u8, u8, u8), BindingError>(e),
        },
{
    match read_mapped_address(response) {
        Ok(a) => Ok(format_address(a)),
        Err(e) => Err(e),
    }
}

/// What an error says of itself.
pub open spec fn error_text(e: BindingError) -> Seq<char> {
    match e {
        BindingError::TooShort(n) => "Invalid STUN response size: "@ + decimal(n as nat),
        BindingError::NotBindingResponse => "Not a STUN Binding Response"@,
        BindingError::Ipv6Unsupported => "IPv6 handling not implemented"@,
        BindingError::NoMappedAddress => "Could not find XOR-MAPPED-ADDRESS in STUN response"@,
    }
}

impl BindingError {
    /// What the error says of itself.
    pub fn message(&self) -> (out: String)
        ensures
            out@ == error_text(*self),
    {
        match self {
            BindingError::TooShort(n) => {
                let mut text = to_chars("Invalid STUN response size: ");
                push_decimal(&mut text, *n as u64);
                to_text(text.as_slice())
            },
            BindingError::NotBindingResponse => "Not a STUN Binding Response".to_string(),
            BindingError::Ipv6Unsupported => "IPv6 handling not implemented".to_string(),
            BindingError::NoMappedAddress => "Could not find XOR-MAPPED-ADDRESS in STUN response".to_string(),
        }
    }
}

/// The servers that are asked for the public address, in the order in which they are
/// tried.
pub open spec fn server_list() -> Seq<Seq<char>> {
    seq![
        "stun.l.google.com:19302"@,
        "stun1.l.google.com:19302"@,
        "stun2.l.google.com:19302"@,
        "stun.stunprotocol.org:3478"@,
        "stun.voip.blackberry.com:3478"@,
        "stun.sipgate.net:10000"@,
    ]
}

/// The servers that are asked for the public address, in the order in which they are
/// tried.
pub fn stun_servers() -> (out: Vec<String>)
    ensures
        texts(out@) == server_list(),
{
    let mut out: Vec<String> = Vec::new();
    out.push("stun.l.google.com:19302".to_string());
    out.push("stun1.l.google.com:19302".to_string());
    out.push("stun2.l.google.com:19302".to_string());
    out.push("stun.stunprotocol.org:3478".to_string());
    out.push("stun.voip.blackberry.com:3478".to_string());
    out.push("stun.sipgate.net:10000".to_string());
    assert(texts(out@) =~= server_list());
    out
}

/// A source that is asked for the public address.
#[derive(Debug, PartialEq, Eq, Clone, Copy)]
pub enum Source {
    /// The server at this place in the list of servers.
    Server(usize),
    /// The router of the local network.
    Router,
}

/// What to do next in the search for the public address.
#[derive(Debug, PartialEq, Eq)]
pub enum Step {
    /// Ask this source.
    Ask(Source),
    /// The search has ended with this address.
    Found(String),
    /// Every source has failed.
    Failed,
}

/// What a `Step` holds.
pub ghost enum StepView {
    Ask(Source),
    Found(Seq<char>),
    Failed,
}

impl View for Step {
    type V = StepView;

    open spec fn view(&self) -> StepView {
        match self {
            Step::Ask(s) => StepView::Ask(*s),
            Step::Found(ip) => StepView::Found(ip@),
            Step::Failed => StepView::Failed,
        }
    }
}

/// The step that follows when `source` was asked among `servers` servers and answered
/// with `answer`. An address ends the search. Without one the next server is asked; after
/// the last server the router; after the router the search has failed.
pub open spec fn step_after(servers: nat, source: Source, answer: Option<Seq<char>>) -> StepView {
    match answer {
        Some(ip) => StepView::Found(ip),
        None => match source {
            Source::Server(i) => if i + 1 < servers {
                StepView::Ask(Source::Server((i + 1) as usize))
            } else {
                StepView::Ask(Source::Router)
            },
            Source::Router => StepView::Failed,
        },
    }
}

/// The source that is asked first: the first server, or the router where there are no
/// servers.
pub fn first_source(servers: usize) -> (s: Source)
    ensures
        s == if servers > 0 {
            Source::Server(0)
        } else {
            Source::Router
        },
{
    if servers > 0 {
        Source::Server(0)
    } else {
        Source::Router
    }
}

/// The step that follows when `source` was asked among `servers` servers and gave
/// `answer`: an address, or nothing where it failed or did not answer in time.
pub fn next_step(servers: usize, source: Source, answer: Option<String>) -> (step: Step)
    ensures
        step@ == step_after(servers as nat, source, crate::model::opt_text(answer)),
{
    match answer {
        Some(ip) => Step::Found(ip),
        None => match source {
            Source::Server(i) => {
                if i < servers && i + 1 < servers {
                    Step::Ask(Source::Server(i + 1))
                } else {
                    Step::Ask(Source::Router)
                }
            },
            Source::Router => Step::Failed,
        },
    }
}

/// For how many seconds one server may take to answer before the next is tried.
pub const SERVER_TIMEOUT_SECS: u64 = 3;

/// For how many seconds the answer of a server is waited for once the request is sent.
pub const READ_TIMEOUT_SECS: u64 = 2;

/// For how many seconds the router may take to answer.
pub const ROUTER_TIMEOUT_SECS: u64 = 5;

/// What the failed search says of itself.
pub fn no_source_message() -> (out: String)
    ensures
        out@ == "Could not determine public IP address from any source"@,
{
    "Could not determine public IP address from any source".to_string()
}

} // verus!
