use sha1::{Digest, Sha1};
use vstd::prelude::*;
use vstd::utf8::{decode_utf8, encode_utf8, valid_utf8};

verus! {

/// The GUID that RFC 6455 appends to a client's key before hashing it.
pub const WS_GUID: &'static str = "258EAFA5-E914-47DA-95CA-C5AB0DC85B11";

/// The request header that carries the client's key.
pub const WS_KEY_HEADER: &'static str = "Sec-WebSocket-Key";

/// The start of the answer that accepts a WebSocket upgrade, up to the
/// accept value.
pub const SWITCHING_PROTOCOLS: &'static str = "HTTP/1.1 101 Switching Protocols\r\nUpgrade: websocket\r\nConnection: Upgrade\r\nSec-WebSocket-Accept: ";

/// What closes the accept line and the answer's header block.
pub const HEADER_END: &'static str = "\r\n\r\n";

/// How many request headers are read at most.
pub const MAX_HEADERS: usize = 16;

/// The SHA-1 digest of `data`.
pub uninterp spec fn sha1_digest(data: Seq<u8>) -> Seq<u8>;

/// The character of the standard base64 alphabet for the six bits `v`.
pub open spec fn base64_char(v: int) -> char {
    if v < 26 {
        (65 + v) as char
    } else if v < 52 {
        (97 + v - 26) as char
    } else if v < 62 {
        (48 + v - 52) as char
    } else if v == 62 {
        '+'
    } else {
        '/'
    }
}

/// The four characters for the 24 bits `n` whose last `pad` characters
/// carry no input and are written as `=`.
pub open spec fn base64_quad(n: int, pad: int) -> Seq<char> {
    seq![
        base64_char(n / 0x4_0000),
        base64_char((n / 0x1000) % 64),
        if pad >= 2 { '=' } else { base64_char((n / 64) % 64) },
        if pad >= 1 { '=' } else { base64_char(n % 64) },
    ]
}

/// The standard base64 text, with padding, of `data` (RFC 4648): each
/// group of three bytes becomes four characters, and a last group of one
/// or two bytes is padded with `=`.
pub open spec fn base64_text(data: Seq<u8>) -> Seq<char>
    decreases data.len(),
{
    if data.len() >= 3 {
        base64_quad(data[0] * 0x1_0000 + data[1] * 0x100 + data[2], 0) + base64_text(data.skip(3))
    } else if data.len() == 2 {
        base64_quad(data[0] * 0x1_0000 + data[1] * 0x100, 1)
    } else if data.len() == 1 {
        base64_quad(data[0] * 0x1_0000, 2)
    } else {
        Seq::empty()
    }
}

/// Base64 text has four characters per started group of three bytes, and
/// ends in `=` unless the byte count is a multiple of three.
pub proof fn lemma_base64_shape(data: Seq<u8>)
    ensures
        base64_text(data).len() == 4 * ((data.len() + 2) / 3),
        data.len() % 3 != 0 ==> base64_text(data).last() == '=',
    decreases data.len(),
{
    if data.len() >= 3 {
        lemma_base64_shape(data.skip(3));
    }
}

/// What `httparse::Request::parse` makes of `data` with room for
/// `max_headers` headers: `None` for a parse error, `Some(None)` for an
/// incomplete request, and otherwise the headers' names and values in order.
pub uninterp spec fn http_request_headers(data: Seq<u8>, max_headers: nat) -> Option<
    Option<Seq<(Seq<char>, Seq<u8>)>>,
>;

/// Hashes `data` with `sha1::Sha1` (`Digest::digest`); the result is the
/// named digest of `data`, 20 bytes long as the hasher's output size says.
#[verifier::external_body]
fn sha1(data: &[u8]) -> (d: Vec<u8>)
    ensures
        d@ == sha1_digest(data@),
        d@.len() == 20,
{
    Sha1::digest(data).to_vec()
}

/// Encodes `data` with `base64::encode` (standard alphabet, padded); the
/// result is the base64 text of `data` as RFC 4648 defines it.
#[verifier::external_body]
fn base64_encode(data: &[u8]) -> (s: String)
    ensures
        s@ == base64_text(data@),
{
    base64::encode(data)
}

/// Decodes `bytes` with `String::from_utf8`, which refuses exactly the byte
/// strings that are not UTF-8.
#[verifier::external_body]
fn string_from_utf8(bytes: Vec<u8>) -> (r: Option<String>)
    ensures
        match r {
            Some(s) => valid_utf8(bytes@) && s@ == decode_utf8(bytes@),
            None => !valid_utf8(bytes@),
        },
{
    String::from_utf8(bytes).ok()
}

/// One request header: its name and its raw value.
#[derive(Debug)]
pub struct HttpHeader {
    pub name: String,
    pub value: Vec<u8>,
}

/// The names and values of `hs`, as plain sequences.
pub open spec fn headers_view(hs: Seq<HttpHeader>) -> Seq<(Seq<char>, Seq<u8>)> {
    hs.map_values(|h: HttpHeader| (h.name@, h.value@))
}

/// Parses the head of an HTTP request with `httparse::Request::parse`, with
/// room for `max_headers` headers, and copies out the headers' names and
/// values; the result is the named `http_request_headers` of the input.
#[verifier::external_body]
fn parse_request_headers(data: &[u8], max_headers: usize) -> (r: Option<Option<Vec<HttpHeader>>>)
    ensures
        match r {
            None => http_request_headers(data@, max_headers as nat) is None,
            Some(None) => http_request_headers(data@, max_headers as nat) == Some(
                None::<Seq<(Seq<char>, Seq<u8>)>>,
            ),
            Some(Some(hs)) => http_request_headers(data@, max_headers as nat) == Some(
                Some(headers_view(hs@)),
            ),
        },
{
    let mut headers = vec![httparse::EMPTY_HEADER; max_headers];
    let mut req = httparse::Request::new(&mut headers);
    match req.parse(data) {
        Ok(httparse::Status::Complete(_)) => Some(
            Some(
                req.headers.iter().map(
                    |h| HttpHeader { name: h.name.to_string(), value: h.value.to_vec() },
                ).collect(),
            ),
        ),
        Ok(httparse::Status::Partial) => Some(None),
        Err(_) => None,
    }
}

/// The accept value that answers the client key `key` (RFC 6455): the
/// base64 text of the SHA-1 digest of the key followed by the GUID.
pub open spec fn ws_accept(key: Seq<char>) -> Seq<char> {
    base64_text(sha1_digest(encode_utf8(key + WS_GUID@)))
}

/// The value of the last key header among `hs`, if there is one.
pub open spec fn last_key_value(hs: Seq<(Seq<char>, Seq<u8>)>) -> Option<Seq<u8>>
    decreases hs.len(),
{
    if hs.len() == 0 {
        None
    } else if hs.last().0 == WS_KEY_HEADER@ {
        Some(hs.last().1)
    } else {
        last_key_value(hs.drop_last())
    }
}

/// The key value is that of the last header named `Sec-WebSocket-Key`,
/// wherever it stands among the headers; without such a header there is none.
pub proof fn lemma_last_key_header_wins(hs: Seq<(Seq<char>, Seq<u8>)>)
    ensures
        forall|j: int|
            0 <= j < hs.len() && #[trigger] hs[j].0 == WS_KEY_HEADER@ && (forall|k: int|
                j < k < hs.len() ==> hs[k].0 != WS_KEY_HEADER@) ==> last_key_value(hs) == Some(
                hs[j].1,
            ),
        (forall|i: int| 0 <= i < hs.len() ==> hs[i].0 != WS_KEY_HEADER@) ==> last_key_value(hs)
            is None,
    decreases hs.len(),
{
    if hs.len() > 0 {
        let h0 = hs.drop_last();
        lemma_last_key_header_wins(h0);
        assert forall|j: int|
            0 <= j < hs.len() && #[trigger] hs[j].0 == WS_KEY_HEADER@ && (forall|k: int|
                j < k < hs.len() ==> hs[k].0 != WS_KEY_HEADER@) implies last_key_value(hs) == Some(
            hs[j].1,
        ) by {
            if j < hs.len() - 1 {
                assert(hs[hs.len() - 1].0 != WS_KEY_HEADER@);
                assert(h0[j] == hs[j]);
                assert forall|k: int| j < k < h0.len() implies h0[k].0 != WS_KEY_HEADER@ by {
                    assert(h0[k] == hs[k]);
                }
            }
        }
        if forall|i: int| 0 <= i < hs.len() ==> hs[i].0 != WS_KEY_HEADER@ {
            assert(hs[hs.len() - 1].0 != WS_KEY_HEADER@);
            assert forall|i: int| 0 <= i < h0.len() implies h0[i].0 != WS_KEY_HEADER@ by {
                assert(h0[i] == hs[i]);
            }
        }
    }
}

/// The client key that `hs` give: the text of the last key header, or the
/// empty text where there is none.
pub open spec fn client_key(hs: Seq<(Seq<char>, Seq<u8>)>) -> Seq<char> {
    match last_key_value(hs) {
        Some(v) => decode_utf8(v),
        None => Seq::empty(),
    }
}

/// Whether every key header among `hs` holds UTF-8 text.
pub open spec fn key_headers_valid(hs: Seq<(Seq<char>, Seq<u8>)>) -> bool {
    forall|i: int| 0 <= i < hs.len() && #[trigger] hs[i].0 == WS_KEY_HEADER@ ==> valid_utf8(hs[i].1)
}

/// The answer that accepts the upgrade for the client key `key`.
pub open spec fn handshake_response(key: Seq<char>) -> Seq<char> {
    SWITCHING_PROTOCOLS@ + ws_accept(key) + HEADER_END@
}

/// The answer to the request text `request`: nothing for an incomplete
/// request, the accepting answer for a complete one, and `None` where the
/// request is no HTTP request head or a key header holds no UTF-8 text.
pub open spec fn request_response(request: Seq<char>) -> Option<Seq<char>> {
    match http_request_headers(encode_utf8(request), MAX_HEADERS as nat) {
        None => None,
        Some(None) => Some(Seq::empty()),
        Some(Some(hs)) => if key_headers_valid(hs) {
            Some(handshake_response(client_key(hs)))
        } else {
            None
        },
    }
}

/// The accept value for the client key `s`.
pub fn make_ws_accept(s: String) -> (accept: String)
    ensures
        accept@ == ws_accept(s@),
        accept@.len() == 28,
        accept@.last() == '=',
{
    let concat = s.concat(WS_GUID);
    let digest = sha1(concat.as_str().as_bytes());
    proof {
        lemma_base64_shape(digest@);
    }
    base64_encode(digest.as_slice())
}

/// The answer that accepts the upgrade, for the headers of a complete request.
pub fn handshake_for_headers(headers: &Vec<HttpHeader>) -> (response: String)
    requires
        key_headers_valid(headers_view(headers@)),
    ensures
        response@ == handshake_response(client_key(headers_view(headers@))),
{
    let key_name = String::from_str(WS_KEY_HEADER);
    let mut wskey = String::new();
    let mut i: usize = 0;
    while i < headers.len()
        invariant
            i <= headers@.len(),
            key_name@ == WS_KEY_HEADER@,
            key_headers_valid(headers_view(headers@)),
            wskey@ == client_key(headers_view(headers@.take(i as int))),
        decreases headers@.len() - i,
    {
        let ghost before = headers_view(headers@.take(i as int));
        let ghost after = headers_view(headers@.take(i + 1));
        assert(after.drop_last() =~= before);
        assert(after.last() == headers_view(headers@)[i as int]);
        if headers[i].name == key_name {
            assert(headers_view(headers@)[i as int].0 == WS_KEY_HEADER@);
            let value = headers[i].value.clone();
            assert(value@ =~= headers@[i as int].value@);
            match string_from_utf8(value) {
                Some(text) => {
                    wskey = text;
                },
                None => {
                    proof {
                        assert(false);
                    }
                },
            }
        }
        i = i + 1;
    }
    assert(headers@.take(headers@.len() as int) =~= headers@);
    let accept = make_ws_accept(wskey);
    let mut response = String::from_str(SWITCHING_PROTOCOLS);
    response.append(accept.as_str());
    response.append(HEADER_END);
    response
}

/// The answer to the head of a WebSocket upgrade request: the accepting
/// answer for a complete request, and the empty text for an incomplete one.
pub fn handle_request(lines: String) -> (response: String)
    requires
        request_response(lines@) is Some,
    ensures
        Some(response@) == request_response(lines@),
{
    match parse_request_headers(lines.as_str().as_bytes(), MAX_HEADERS) {
        Some(Some(headers)) => handshake_for_headers(&headers),
        Some(None) => String::new(),
        None => {
            proof {
                assert(false);
            }
            String::new()
        },
    }
}

/// Whether every key header among `headers` holds UTF-8 text.
fn key_headers_are_text(headers: &Vec<HttpHeader>) -> (ok: bool)
    ensures
        ok == key_headers_valid(headers_view(headers@)),
{
    let key_name = String::from_str(WS_KEY_HEADER);
    let mut i: usize = 0;
    while i < headers.len()
        invariant
            i <= headers@.len(),
            key_name@ == WS_KEY_HEADER@,
            forall|j: int|
                0 <= j < i && #[trigger] headers_view(headers@)[j].0 == WS_KEY_HEADER@ ==> valid_utf8(
                    headers_view(headers@)[j].1,
                ),
        decreases headers@.len() - i,
    {
        if headers[i].name == key_name {
            let value = headers[i].value.clone();
            assert(value@ =~= headers@[i as int].value@);
            if string_from_utf8(value).is_none() {
                assert(headers_view(headers@)[i as int].0 == WS_KEY_HEADER@);
                assert(!valid_utf8(headers_view(headers@)[i as int].1));
                return false;
            }
        }
        i = i + 1;
    }
    true
}

/// The answer to the head of a WebSocket upgrade request, or `None` where
/// it is no HTTP request head or a key header holds no UTF-8 text.
pub fn try_handle_request(lines: String) -> (response: Option<String>)
    ensures
        match response {
            Some(r) => request_response(lines@) == Some(r@),
            None => request_response(lines@) is None,
        },
{
    let ok = match parse_request_headers(lines.as_str().as_bytes(), MAX_HEADERS) {
        Some(Some(headers)) => key_headers_are_text(&headers),
        Some(None) => true,
        None => false,
    };
    if ok {
        Some(handle_request(lines))
    } else {
        None
    }
}

/// The character that shows bit `j` of `b`.
pub open spec fn bit_char(b: u8, j: u8) -> char {
    if (b >> j) & 1 == 1 {
        '1'
    } else {
        '0'
    }
}

/// The line that shows the bits of `b`, least significant first.
pub open spec fn bits_line(b: u8) -> Seq<char> {
    Seq::new(8, |j: int| bit_char(b, j as u8)).push('\n')
}

/// The lines that show the bits of each byte of `buf`, in order.
pub open spec fn bits_text(buf: Seq<u8>) -> Seq<char>
    decreases buf.len(),
{
    if buf.len() == 0 {
        Seq::empty()
    } else {
        bits_text(buf.drop_last()) + bits_line(buf.last())
    }
}

/// Shows each byte of `buf` as a line of its bits, least significant first.
pub fn format_bits(buf: &Vec<u8>) -> (text: String)
    ensures
        text@ == bits_text(buf@),
{
    proof {
        reveal_strlit("1");
        reveal_strlit("0");
        reveal_strlit("\n");
    }
    let mut text = String::new();
    let mut i: usize = 0;
    while i < buf.len()
        invariant
            i <= buf@.len(),
            "1"@ == seq!['1'],
            "0"@ == seq!['0'],
            "\n"@ == seq!['\n'],
            text@ == bits_text(buf@.take(i as int)),
        decreases buf@.len() - i,
    {
        let b = buf[i];
        let ghost start = text@;
        let mut j: u8 = 0;
        while j < 8
            invariant
                j <= 8,
                "1"@ == seq!['1'],
                "0"@ == seq!['0'],
                text@ == start + Seq::new(j as nat, |k: int| bit_char(b, k as u8)),
            decreases 8 - j,
        {
            if (b >> j) & 1 == 1 {
                text.append("1");
            } else {
                text.append("0");
            }
            assert(text@ =~= start + Seq::new((j + 1) as nat, |k: int| bit_char(b, k as u8)));
            j = j + 1;
        }
        text.append("\n");
        assert(buf@.take(i + 1).drop_last() =~= buf@.take(i as int));
        assert(text@ =~= bits_text(buf@.take(i + 1)));
        i = i + 1;
    }
    assert(buf@.take(buf@.len() as int) =~= buf@);
    text
}

} // verus!
