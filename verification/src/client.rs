use vstd::prelude::*;
use vstd::string::StringExecFns;
use vstd::utf8::encode_utf8;
use crate::config::Profile;
use crate::json::{Json, JsonValue};
use crate::text::{decimal, trim_end_char};

verus! {

// ---------------------------------------------------------------------------
// Base64 (RFC 4648, with padding)
// ---------------------------------------------------------------------------

/// The Base64 alphabet character for a 6-bit value.
pub open spec fn b64_char(v: u8) -> char {
    if v < 26 {
        ((v + 65) as u8) as char
    } else if v < 52 {
        ((v + 71) as u8) as char
    } else if v < 62 {
        ((v - 4) as u8) as char
    } else if v == 62 {
        '+'
    } else {
        '/'
    }
}

/// Standard Base64 of a byte string, padded with `=` to a multiple of four.
pub open spec fn base64(b: Seq<u8>) -> Seq<char>
    decreases b.len(),
{
    if b.len() == 0 {
        seq![]
    } else if b.len() == 1 {
        seq![b64_char(b[0] >> 2), b64_char((b[0] & 3) << 4), '=', '=']
    } else if b.len() == 2 {
        seq![
            b64_char(b[0] >> 2),
            b64_char(((b[0] & 3) << 4) | (b[1] >> 4)),
            b64_char((b[1] & 15) << 2),
            '=',
        ]
    } else {
        seq![
            b64_char(b[0] >> 2),
            b64_char(((b[0] & 3) << 4) | (b[1] >> 4)),
            b64_char(((b[1] & 15) << 2) | (b[2] >> 6)),
            b64_char(b[2] & 63),
        ] + base64(b.skip(3))
    }
}

/// The characters Base64 output is made of: ASCII letters and digits, `+`,
/// `/`, and `=` for padding.
pub open spec fn is_base64_char(c: char) -> bool {
    ('A' <= c && c <= 'Z') || ('a' <= c && c <= 'z') || ('0' <= c && c <= '9') || c == '+' || c == '/' || c == '='
}

proof fn lemma_b64_char(v: u8)
    requires
        v < 64,
    ensures
        is_base64_char(b64_char(v)),
        b64_char(v) != '=',
{
}

/// Base64 output is four characters for every three bytes started.
pub proof fn law_base64_length(b: Seq<u8>)
    ensures
        base64(b).len() == 4 * ((b.len() + 2) / 3),
    decreases b.len(),
{
    if b.len() >= 3 {
        law_base64_length(b.skip(3));
    }
}

/// Base64 output holds only letters, digits, `+`, `/` and `=`.
pub proof fn law_base64_alphabet(b: Seq<u8>)
    ensures
        forall|i: int| 0 <= i < base64(b).len() ==> is_base64_char(#[trigger] base64(b)[i]),
    decreases b.len(),
{
    if b.len() == 0 {
    } else {
        let b0 = b[0];
        assert(b0 >> 2 < 64) by (bit_vector);
        assert((b0 & 3) << 4 < 64) by (bit_vector);
        lemma_b64_char(b0 >> 2);
        lemma_b64_char((b0 & 3) << 4);
        if b.len() >= 2 {
            let b1 = b[1];
            assert(((b0 & 3) << 4) | (b1 >> 4) < 64) by (bit_vector);
            assert((b1 & 15) << 2 < 64) by (bit_vector);
            lemma_b64_char(((b0 & 3) << 4) | (b1 >> 4));
            lemma_b64_char((b1 & 15) << 2);
            if b.len() >= 3 {
                let b2 = b[2];
                assert(((b1 & 15) << 2) | (b2 >> 6) < 64) by (bit_vector);
                assert(b2 & 63 < 64) by (bit_vector);
                lemma_b64_char(((b1 & 15) << 2) | (b2 >> 6));
                lemma_b64_char(b2 & 63);
                law_base64_alphabet(b.skip(3));
                let head = seq![
                    b64_char(b[0] >> 2),
                    b64_char(((b[0] & 3) << 4) | (b[1] >> 4)),
                    b64_char(((b[1] & 15) << 2) | (b[2] >> 6)),
                    b64_char(b[2] & 63),
                ];
                assert forall|i: int| 0 <= i < base64(b).len() implies is_base64_char(#[trigger] base64(b)[i]) by {
                    if i >= 4 {
                        assert(base64(b)[i] == base64(b.skip(3))[i - 4]);
                    } else {
                        assert(base64(b)[i] == head[i]);
                    }
                }
            }
        }
    }
}

/// The 6-bit value of a Base64 alphabet character (the inverse of [`b64_char`]).
pub open spec fn b64_value(c: char) -> u8 {
    if 'A' <= c && c <= 'Z' {
        (c as u32 - 65) as u8
    } else if 'a' <= c && c <= 'z' {
        (c as u32 - 71) as u8
    } else if '0' <= c && c <= '9' {
        (c as u32 + 4) as u8
    } else if c == '+' {
        62
    } else {
        63
    }
}

/// Standard Base64 decoding of padded text: each group of four characters
/// gives three bytes, or two or one when it ends in one or two `=`.
pub open spec fn base64_decode(s: Seq<char>) -> Seq<u8>
    decreases s.len(),
{
    if s.len() < 4 {
        seq![]
    } else {
        let v0 = b64_value(s[0]);
        let v1 = b64_value(s[1]);
        let v2 = b64_value(s[2]);
        let v3 = b64_value(s[3]);
        let x0: u8 = (v0 << 2) | (v1 >> 4);
        let x1: u8 = ((v1 & 15) << 4) | (v2 >> 2);
        let x2: u8 = ((v2 & 3) << 6) | v3;
        if s[2] == '=' {
            seq![x0]
        } else if s[3] == '=' {
            seq![x0, x1]
        } else {
            seq![x0, x1, x2] + base64_decode(s.skip(4))
        }
    }
}

proof fn lemma_b64_value(v: u8)
    requires
        v < 64,
    ensures
        b64_value(b64_char(v)) == v,
{
}

/// Decoding Base64 output gives back the bytes it was made from.
pub proof fn law_base64_roundtrip(b: Seq<u8>)
    ensures
        base64_decode(base64(b)) == b,
    decreases b.len(),
{
    let e = base64(b);
    if b.len() >= 1 {
        let b0 = b[0];
        assert(b0 >> 2 < 64) by (bit_vector);
        assert((b0 & 3) << 4 < 64) by (bit_vector);
        lemma_b64_value(b0 >> 2);
        lemma_b64_value((b0 & 3) << 4);
        lemma_b64_char(b0 >> 2);
        lemma_b64_char((b0 & 3) << 4);
        if b.len() == 1 {
            assert(((b0 >> 2) << 2) | (((b0 & 3) << 4) >> 4) == b0) by (bit_vector);
            assert(base64_decode(e) =~= b);
        } else {
            let b1 = b[1];
            assert(((b0 & 3) << 4) | (b1 >> 4) < 64) by (bit_vector);
            assert((b1 & 15) << 2 < 64) by (bit_vector);
            lemma_b64_value(((b0 & 3) << 4) | (b1 >> 4));
            lemma_b64_value((b1 & 15) << 2);
            lemma_b64_char(((b0 & 3) << 4) | (b1 >> 4));
            lemma_b64_char((b1 & 15) << 2);
            assert(((b0 >> 2) << 2) | ((((b0 & 3) << 4) | (b1 >> 4)) >> 4) == b0) by (bit_vector);
            if b.len() == 2 {
                assert((((((b0 & 3) << 4) | (b1 >> 4)) & 15) << 4) | (((b1 & 15) << 2) >> 2) == b1) by (bit_vector);
                assert(base64_decode(e) =~= b);
            } else {
                let b2 = b[2];
                assert(((b1 & 15) << 2) | (b2 >> 6) < 64) by (bit_vector);
                assert(b2 & 63 < 64) by (bit_vector);
                lemma_b64_value(((b1 & 15) << 2) | (b2 >> 6));
                lemma_b64_value(b2 & 63);
                lemma_b64_char(((b1 & 15) << 2) | (b2 >> 6));
                lemma_b64_char(b2 & 63);
                assert((((((b0 & 3) << 4) | (b1 >> 4)) & 15) << 4) | ((((b1 & 15) << 2) | (b2 >> 6)) >> 2) == b1)
                    by (bit_vector);
                assert((((((b1 & 15) << 2) | (b2 >> 6)) & 3) << 6) | (b2 & 63) == b2) by (bit_vector);
                law_base64_roundtrip(b.skip(3));
                assert(e.skip(4) =~= base64(b.skip(3)));
                assert(base64_decode(e) =~= b);
            }
        }
    }
}

/// Base64 output ends in exactly `(3 - n % 3) % 3` padding characters `=`
/// for `n` bytes, and holds no `=` anywhere else.
pub proof fn law_base64_padding(b: Seq<u8>)
    ensures
        ({
            let e = base64(b);
            let p = (3 - b.len() % 3) % 3;
            &&& e.len() >= p
            &&& forall|i: int| 0 <= i < e.len() - p ==> #[trigger] e[i] != '='
            &&& forall|i: int| e.len() - p <= i < e.len() ==> #[trigger] e[i] == '='
        }),
    decreases b.len(),
{
    let e = base64(b);
    law_base64_length(b);
    if b.len() >= 1 {
        let b0 = b[0];
        assert(b0 >> 2 < 64) by (bit_vector);
        assert((b0 & 3) << 4 < 64) by (bit_vector);
        lemma_b64_char(b0 >> 2);
        lemma_b64_char((b0 & 3) << 4);
        if b.len() >= 2 {
            let b1 = b[1];
            assert(((b0 & 3) << 4) | (b1 >> 4) < 64) by (bit_vector);
            assert((b1 & 15) << 2 < 64) by (bit_vector);
            lemma_b64_char(((b0 & 3) << 4) | (b1 >> 4));
            lemma_b64_char((b1 & 15) << 2);
            if b.len() >= 3 {
                let b2 = b[2];
                assert(((b1 & 15) << 2) | (b2 >> 6) < 64) by (bit_vector);
                assert(b2 & 63 < 64) by (bit_vector);
                lemma_b64_char(((b1 & 15) << 2) | (b2 >> 6));
                lemma_b64_char(b2 & 63);
                law_base64_padding(b.skip(3));
                let r = base64(b.skip(3));
                assert(b.skip(3).len() % 3 == b.len() % 3);
                assert forall|i: int| 4 <= i < e.len() implies e[i] == r[i - 4] by {}
            }
        }
    }
}

/// What `base64_encode` gives for a text decodes back to the text's UTF-8
/// bytes; it is four characters per three bytes started, and ends in exactly
/// `(3 - n % 3) % 3` padding characters for `n` bytes, with no `=` elsewhere.
pub proof fn law_base64_encode(text: Seq<char>)
    ensures
        ({
            let b = encode_utf8(text);
            let e = base64(b);
            let p = (3 - b.len() % 3) % 3;
            &&& base64_decode(e) == b
            &&& e.len() == 4 * ((b.len() + 2) / 3)
            &&& forall|i: int| 0 <= i < e.len() - p ==> #[trigger] e[i] != '='
            &&& forall|i: int| e.len() - p <= i < e.len() ==> #[trigger] e[i] == '='
        }),
{
    let b = encode_utf8(text);
    law_base64_roundtrip(b);
    law_base64_length(b);
    law_base64_padding(b);
}

fn b64_char_exec(v: u8) -> (c: char)
    requires
        v < 64,
    ensures
        c == b64_char(v),
{
    if v < 26 {
        (v + 65) as char
    } else if v < 52 {
        (v + 71) as char
    } else if v < 62 {
        (v - 4) as char
    } else if v == 62 {
        '+'
    } else {
        '/'
    }
}

/// Encodes the UTF-8 bytes of `input` in standard Base64 with padding.
pub fn base64_encode(input: &str) -> (r: String)
    ensures
        r@ == base64(encode_utf8(input@)),
{
    let bytes = input.as_bytes();
    let n = bytes.len();
    let ghost b = bytes@;
    assert(b == encode_utf8(input@));
    let mut out: Vec<char> = Vec::new();
    let mut i: usize = 0;
    assert(b.skip(0) =~= b);
    while i < n
        invariant
            n == b.len(),
            b == bytes@,
            i <= n,
            out@ + base64(b.skip(i as int)) == base64(b),
        decreases n - i,
    {
        let ghost rest = b.skip(i as int);
        let b0 = bytes[i];
        let ghost before = out@;
        assert(b0 >> 2 < 64) by (bit_vector);
        out.push(b64_char_exec(b0 >> 2));
        if i + 1 < n {
            let b1 = bytes[i + 1];
            assert(((b0 & 3) << 4) | (b1 >> 4) < 64) by (bit_vector);
            out.push(b64_char_exec(((b0 & 3) << 4) | (b1 >> 4)));
            if i + 2 < n {
                let b2 = bytes[i + 2];
                assert(((b1 & 15) << 2) | (b2 >> 6) < 64) by (bit_vector);
                assert(b2 & 63 < 64) by (bit_vector);
                out.push(b64_char_exec(((b1 & 15) << 2) | (b2 >> 6)));
                out.push(b64_char_exec(b2 & 63));
                assert(rest.skip(3) =~= b.skip(i + 3));
                assert(rest[0] == b0 && rest[1] == b1 && rest[2] == b2);
                assert(out@ =~= before + seq![
                    b64_char(rest[0] >> 2),
                    b64_char(((rest[0] & 3) << 4) | (rest[1] >> 4)),
                    b64_char(((rest[1] & 15) << 2) | (rest[2] >> 6)),
                    b64_char(rest[2] & 63),
                ]);
                i = i + 3;
            } else {
                assert((b1 & 15) << 2 < 64) by (bit_vector);
                out.push(b64_char_exec((b1 & 15) << 2));
                out.push('=');
                assert(rest.len() == 2);
                assert(out@ =~= before + base64(rest));
                assert(b.skip(n as int) =~= Seq::<u8>::empty());
                i = n;
            }
        } else {
            assert((b0 & 3) << 4 < 64) by (bit_vector);
            out.push(b64_char_exec((b0 & 3) << 4));
            out.push('=');
            out.push('=');
            assert(rest.len() == 1);
            assert(out@ =~= before + base64(rest));
            assert(b.skip(n as int) =~= Seq::<u8>::empty());
            i = n;
        }
    }
    assert(b.skip(n as int) =~= Seq::<u8>::empty());
    assert(out@ + Seq::<char>::empty() =~= out@);
    crate::text::string_of(out.as_slice())
}


// ---------------------------------------------------------------------------
// Percent-encoding of query parameters
// ---------------------------------------------------------------------------

/// Bytes left as they are: ASCII letters and digits, `-`, `.`, `_`, `~`.
pub open spec fn is_unreserved(b: u8) -> bool {
    (48 <= b <= 57) || (65 <= b <= 90) || (97 <= b <= 122) || b == 45 || b == 46 || b == 95 || b == 126
}

/// Upper-case hexadecimal digit.
pub open spec fn hex_upper(d: u8) -> char {
    if d < 10 {
        ((d + 48) as u8) as char
    } else {
        ((d + 55) as u8) as char
    }
}

/// Every byte but the unreserved ones written as `%XX`.
pub open spec fn percent_encode(b: Seq<u8>) -> Seq<char>
    decreases b.len(),
{
    if b.len() == 0 {
        seq![]
    } else {
        percent_encode(b.drop_last()) + (if is_unreserved(b.last()) {
            seq![b.last() as char]
        } else {
            seq!['%', hex_upper(b.last() >> 4), hex_upper(b.last() & 15)]
        })
    }
}

/// The percent-encoding of a string's UTF-8 bytes.
pub open spec fn url_encoded(s: Seq<char>) -> Seq<char> {
    percent_encode(encode_utf8(s))
}

/// The characters percent-encoded text is made of: the unreserved ones, `%`,
/// and upper-case hexadecimal digits.
pub open spec fn is_encoded_char(c: char) -> bool {
    ('A' <= c && c <= 'Z') || ('a' <= c && c <= 'z') || ('0' <= c && c <= '9') || c == '-' || c == '.' || c == '_' || c == '~'
        || c == '%'
}

/// A percent-encoded text holds only letters, digits, `-`, `.`, `_`, `~` and
/// `%`: in particular never `&`, `=`, `?`, `#` or a space, so an encoded key
/// or value cannot change the shape of a query string.
pub proof fn law_percent_encode_alphabet(b: Seq<u8>)
    ensures
        forall|i: int| 0 <= i < percent_encode(b).len() ==> is_encoded_char(#[trigger] percent_encode(b)[i]),
    decreases b.len(),
{
    if b.len() > 0 {
        law_percent_encode_alphabet(b.drop_last());
        let x = b.last();
        let hi = x >> 4;
        let lo = x & 15;
        assert(x >> 4 < 16) by (bit_vector);
        assert(x & 15 < 16) by (bit_vector);
        let tail = if is_unreserved(x) {
            seq![x as char]
        } else {
            seq!['%', hex_upper(hi), hex_upper(lo)]
        };
        assert forall|i: int| 0 <= i < percent_encode(b).len() implies is_encoded_char(#[trigger] percent_encode(b)[i]) by {
            let n = percent_encode(b.drop_last()).len();
            if i >= n {
                assert(percent_encode(b)[i] == tail[i - n]);
            } else {
                assert(percent_encode(b)[i] == percent_encode(b.drop_last())[i]);
            }
        }
    }
}

/// `urlencoding::encode`, which percent-encodes every byte of the string's
/// UTF-8 form except ASCII letters, digits, `-`, `.`, `_` and `~`, with
/// upper-case hexadecimal digits.
#[verifier::external_body]
fn url_encode(s: &str) -> (r: String)
    ensures
        r@ == url_encoded(s@),
{
    urlencoding::encode(s).into_owned()
}

/// `key=value`, both percent-encoded.
pub open spec fn param_text(p: (Seq<char>, Seq<char>)) -> Seq<char> {
    url_encoded(p.0) + seq!['='] + url_encoded(p.1)
}

/// Query parameters joined with `&`.
pub open spec fn query_text(q: Seq<(Seq<char>, Seq<char>)>) -> Seq<char>
    decreases q.len(),
{
    if q.len() == 0 {
        seq![]
    } else if q.len() == 1 {
        param_text(q[0])
    } else {
        query_text(q.drop_last()) + seq!['&'] + param_text(q.last())
    }
}

/// The model of query parameters given as string pairs.
pub open spec fn query_view(q: Option<&[(&str, &str)]>) -> Option<Seq<(Seq<char>, Seq<char>)>> {
    match q {
        Some(q) => Some(Seq::new(q@.len(), |i: int| (q@[i].0@, q@[i].1@))),
        None => None,
    }
}

fn query_string(q: &[(&str, &str)]) -> (r: String)
    ensures
        r@ == query_text(query_view(Some(q))->0),
{
    let ghost qs = query_view(Some(q))->0;
    let mut r = String::new();
    let n = q.len();
    for i in 0..n
        invariant
            n == q@.len(),
            qs == query_view(Some(q))->0,
            r@ == query_text(qs.take(i as int)),
    {
        assert(qs.take(i + 1).drop_last() =~= qs.take(i as int));
        if i > 0 {
            r.append("&");
            proof {
                reveal_strlit("&");
            }
        } else {
            assert(qs.take(0) =~= Seq::<(Seq<char>, Seq<char>)>::empty());
        }
        let (k, v) = q[i];
        let ek = url_encode(k);
        let ev = url_encode(v);
        r.append(ek.as_str());
        r.append("=");
        proof {
            reveal_strlit("=");
        }
        r.append(ev.as_str());
        assert(qs.take(i + 1).last() == (k@, v@));
    }
    assert(qs.take(n as int) =~= qs);
    r
}

// ---------------------------------------------------------------------------
// Requests
// ---------------------------------------------------------------------------

/// A connection profile: where to send requests and how to authenticate.
pub struct Client {
    pub base_url: String,
    pub email: String,
    pub api_token: String,
}

/// What a request carries.
pub enum Body {
    Empty,
    Json(JsonValue),
    Bytes(Vec<u8>),
}

/// A request ready to be sent: method, full URL, headers (in the order they
/// are set) and body.
pub struct HttpRequest {
    pub method: String,
    pub url: String,
    pub headers: Vec<(String, String)>,
    pub body: Body,
}

pub enum BodyModel {
    Empty,
    Json(Json),
    Bytes(Seq<u8>),
}

pub struct RequestModel {
    pub method: Seq<char>,
    pub url: Seq<char>,
    pub headers: Seq<(Seq<char>, Seq<char>)>,
    pub body: BodyModel,
}

impl View for HttpRequest {
    type V = RequestModel;

    open spec fn view(&self) -> RequestModel {
        RequestModel {
            method: self.method@,
            url: self.url@,
            headers: Seq::new(self.headers@.len(), |i: int| (self.headers@[i].0@, self.headers@[i].1@)),
            body: match self.body {
                Body::Empty => BodyModel::Empty,
                Body::Json(j) => BodyModel::Json(j@),
                Body::Bytes(b) => BodyModel::Bytes(b@),
            },
        }
    }
}

pub open spec fn starts_with(s: Seq<char>, p: Seq<char>) -> bool {
    p.len() <= s.len() && s.take(p.len() as int) == p
}

/// Paths that are full URLs are used as they are; others follow the base URL.
pub open spec fn target_url(base: Seq<char>, path: Seq<char>) -> Seq<char> {
    if starts_with(path, seq!['h', 't', 't', 'p', ':', '/', '/']) || starts_with(
        path,
        seq!['h', 't', 't', 'p', 's', ':', '/', '/'],
    ) {
        path
    } else {
        base + path
    }
}

/// The URL with its query string, when there are parameters.
pub open spec fn full_url(base: Seq<char>, path: Seq<char>, query: Option<Seq<(Seq<char>, Seq<char>)>>) -> Seq<char> {
    match query {
        Some(q) => if q.len() > 0 {
            target_url(base, path) + seq!['?'] + query_text(q)
        } else {
            target_url(base, path)
        },
        None => target_url(base, path),
    }
}

/// The `Authorization` header: Basic with `email:token` when there is an
/// email, else Bearer with the token when there is one, else none.
pub open spec fn auth_headers(email: Seq<char>, token: Seq<char>) -> Seq<(Seq<char>, Seq<char>)> {
    if email.len() > 0 {
        seq![("Authorization"@, "Basic "@ + base64(encode_utf8(email + ":"@ + token)))]
    } else if token.len() > 0 {
        seq![("Authorization"@, "Bearer "@ + token)]
    } else {
        seq![]
    }
}

pub open spec fn json_opt_view(b: Option<JsonValue>) -> Option<Json> {
    match b {
        Some(j) => Some(j@),
        None => None,
    }
}

impl Client {
    /// The request that [`Client::request`] builds.
    pub open spec fn request_spec(
        &self,
        method: Seq<char>,
        path: Seq<char>,
        query: Option<Seq<(Seq<char>, Seq<char>)>>,
        body: Option<Json>,
    ) -> RequestModel {
        RequestModel {
            method: method,
            url: full_url(self.base_url@, path, query),
            headers: auth_headers(self.email@, self.api_token@) + seq![("Accept"@, "application/json"@)] + (
            if body is Some {
                seq![("Content-Type"@, "application/json"@)]
            } else {
                seq![]
            }),
            body: match body {
                Some(j) => BodyModel::Json(j),
                None => BodyModel::Empty,
            },
        }
    }

    /// A client for the profile's site and credentials (the URL without its
    /// trailing slashes).
    pub fn new(profile: Profile) -> (c: Client)
        ensures
            c.base_url@ == trim_end_char(profile.atlassian_url@, '/'),
            c.email@ == profile.email@,
            c.api_token@ == profile.api_token@,
    {
        let mut v = crate::text::chars_of(profile.atlassian_url.as_str());
        while v.len() > 0 && v[v.len() - 1] == '/'
            invariant
                trim_end_char(v@, '/') == trim_end_char(profile.atlassian_url@, '/'),
            decreases v@.len(),
        {
            let ghost before = v@;
            v.pop();
            assert(v@ =~= before.drop_last());
        }
        Client {
            base_url: crate::text::string_of(v.as_slice()),
            email: profile.email,
            api_token: profile.api_token,
        }
    }

    fn auth(&self, headers: &mut Vec<(String, String)>)
        ensures
            header_view(final(headers)@) == header_view(old(headers)@) + auth_headers(self.email@, self.api_token@),
    {
        let ghost before = headers@;
        if !self.email.as_str().is_empty() {
            let mut cred = self.email.clone();
            cred.append(":");
            cred.append(self.api_token.as_str());
            let enc = base64_encode(cred.as_str());
            let mut value = String::from_str("Basic ");
            value.append(enc.as_str());
            headers.push((String::from_str("Authorization"), value));
        } else if !self.api_token.as_str().is_empty() {
            let mut value = String::from_str("Bearer ");
            value.append(self.api_token.as_str());
            headers.push((String::from_str("Authorization"), value));
        }
        assert(header_view(headers@) =~= header_view(before) + auth_headers(self.email@, self.api_token@));
    }

    /// Builds a request: `path` may be a full URL (kept as it is) or a path
    /// under the base URL; non-empty query parameters are percent-encoded and
    /// appended; the body, if any, is sent as JSON.
    pub fn request(
        &self,
        method: &str,
        path: &str,
        query: Option<&[(&str, &str)]>,
        body: Option<JsonValue>,
    ) -> (r: HttpRequest)
        ensures
            r@ == self.request_spec(method@, path@, query_view(query), json_opt_view(body)),
    {
        let pc = crate::text::chars_of(path);
        let absolute = has_prefix(&pc, &['h', 't', 't', 'p', ':', '/', '/']) || has_prefix(
            &pc,
            &['h', 't', 't', 'p', 's', ':', '/', '/'],
        );
        let mut url = if absolute {
            String::from_str(path)
        } else {
            let mut u = self.base_url.clone();
            u.append(path);
            u
        };
        assert(url@ == target_url(self.base_url@, path@));
        match query {
            Some(q) => {
                if q.len() > 0 {
                    let qs = query_string(q);
                    url.append("?");
                    proof {
                        reveal_strlit("?");
                    }
                    url.append(qs.as_str());
                }
            },
            None => {},
        }
        let mut headers: Vec<(String, String)> = Vec::new();
        self.auth(&mut headers);
        headers.push((String::from_str("Accept"), String::from_str("application/json")));
        let b = match body {
            Some(j) => {
                headers.push((String::from_str("Content-Type"), String::from_str("application/json")));
                Body::Json(j)
            },
            None => Body::Empty,
        };
        let r = HttpRequest { method: String::from_str(method), url: url, headers: headers, body: b };
        assert(r@.url == full_url(self.base_url@, path@, query_view(query)));
        assert(r@.body == self.request_spec(method@, path@, query_view(query), json_opt_view(body)).body);
        assert(r@.headers =~= self.request_spec(method@, path@, query_view(query), json_opt_view(body)).headers);
        r
    }
}

impl Client {
    /// The request that fetches the site's tenant information (which holds its cloud id).
    pub fn get_cloud_id(&self) -> (r: HttpRequest)
        ensures
            r@ == self.request_spec("GET"@, "/_edge/tenant_info"@, None, None),
    {
        self.request("GET", "/_edge/tenant_info", None, None)
    }

    /// The host that JSM Ops requests go to: the base URL itself when it
    /// points at this machine, the Atlassian API gateway otherwise.
    pub open spec fn jsm_host(&self) -> Seq<char> {
        if contains(self.base_url@, "127.0.0.1"@) || contains(self.base_url@, "localhost"@) {
            self.base_url@
        } else {
            "https://api.atlassian.com"@
        }
    }

    /// The path of a JSM Ops API call for the given cloud id.
    pub open spec fn jsm_path(&self, cloud_id: Seq<char>, path: Seq<char>) -> Seq<char> {
        self.jsm_host() + "/jsm/ops/api/"@ + cloud_id + "/v1"@ + path
    }

    /// Builds a JSM Ops API request for the site with the given cloud id.
    pub fn request_jsm(
        &self,
        cloud_id: &str,
        method: &str,
        path: &str,
        query: Option<&[(&str, &str)]>,
        body: Option<JsonValue>,
    ) -> (r: HttpRequest)
        ensures
            r@ == self.request_spec(method@, self.jsm_path(cloud_id@, path@), query_view(query), json_opt_view(body)),
    {
        let local = str_contains(self.base_url.as_str(), "127.0.0.1") || str_contains(self.base_url.as_str(), "localhost");
        let mut full = if local {
            self.base_url.clone()
        } else {
            String::from_str("https://api.atlassian.com")
        };
        full.append("/jsm/ops/api/");
        full.append(cloud_id);
        full.append("/v1");
        full.append(path);
        self.request(method, full.as_str(), query, body)
    }

    /// The multipart form body that uploads one file under the field `file`.
    pub open spec fn multipart_body(file_name: Seq<char>, content: Seq<u8>) -> Seq<u8> {
        encode_utf8(
            "--acli-boundary-a1b2c3d4\r\nContent-Disposition: form-data; name=\"file\"; filename=\""@ + file_name
                + "\"\r\nContent-Type: application/octet-stream\r\n\r\n"@,
        ) + content + encode_utf8("\r\n--acli-boundary-a1b2c3d4--\r\n"@)
    }

    /// The request that [`Client::request_multipart`] builds.
    pub open spec fn multipart_spec(&self, method: Seq<char>, path: Seq<char>, file_name: Seq<char>, content: Seq<u8>) -> RequestModel {
        RequestModel {
            method: method,
            url: self.base_url@ + path,
            headers: auth_headers(self.email@, self.api_token@) + seq![
                ("X-Atlassian-Token"@, "no-check"@),
                ("Accept"@, "application/json"@),
                ("Content-Type"@, "multipart/form-data; boundary=acli-boundary-a1b2c3d4"@),
            ],
            body: BodyModel::Bytes(Self::multipart_body(file_name, content)),
        }
    }

    /// Builds a multipart file upload (as Jira's attachment API takes it) of
    /// `content` under the name `file_name`, to `path` under the base URL.
    pub fn request_multipart(&self, method: &str, path: &str, file_name: &str, content: &[u8]) -> (r: HttpRequest)
        ensures
            r@ == self.multipart_spec(method@, path@, file_name@, content@),
    {
        let mut head = String::from_str(
            "--acli-boundary-a1b2c3d4\r\nContent-Disposition: form-data; name=\"file\"; filename=\"",
        );
        head.append(file_name);
        head.append("\"\r\nContent-Type: application/octet-stream\r\n\r\n");
        let tail = "\r\n--acli-boundary-a1b2c3d4--\r\n";
        let mut body: Vec<u8> = Vec::new();
        let hb = head.as_str().as_bytes();
        let tb = tail.as_bytes();
        push_bytes(&mut body, hb);
        push_bytes(&mut body, content);
        push_bytes(&mut body, tb);
        let mut url = self.base_url.clone();
        url.append(path);
        let mut headers: Vec<(String, String)> = Vec::new();
        self.auth(&mut headers);
        headers.push((String::from_str("X-Atlassian-Token"), String::from_str("no-check")));
        headers.push((String::from_str("Accept"), String::from_str("application/json")));
        headers.push(
            (String::from_str("Content-Type"), String::from_str("multipart/form-data; boundary=acli-boundary-a1b2c3d4")),
        );
        let r = HttpRequest { method: String::from_str(method), url: url, headers: headers, body: Body::Bytes(body) };
        assert(r@.headers =~= auth_headers(self.email@, self.api_token@) + seq![
            ("X-Atlassian-Token"@, "no-check"@),
            ("Accept"@, "application/json"@),
            ("Content-Type"@, "multipart/form-data; boundary=acli-boundary-a1b2c3d4"@),
        ]);
        r
    }
}

fn push_bytes(out: &mut Vec<u8>, t: &[u8])
    ensures
        final(out)@ == old(out)@ + t@,
{
    let n = t.len();
    for i in 0..n
        invariant
            n == t@.len(),
            out@ == old(out)@ + t@.take(i as int),
    {
        out.push(t[i]);
        assert(t@.take(i + 1) =~= t@.take(i as int).push(t@[i as int]));
    }
    assert(t@.take(n as int) =~= t@);
}

/// Whether `t` occurs in `s`.
pub open spec fn contains(s: Seq<char>, t: Seq<char>) -> bool {
    exists|i: int| 0 <= i && i + t.len() <= s.len() && #[trigger] s.subrange(i, i + t.len()) == t
}

pub(crate) fn str_contains(s: &str, t: &str) -> (r: bool)
    ensures
        r == contains(s@, t@),
{
    let a = crate::text::chars_of(s);
    let b = crate::text::chars_of(t);
    let n = a.len();
    let m = b.len();
    if m > n {
        proof {
            assert forall|i: int| 0 <= i && i + m <= n implies #[trigger] s@.subrange(i, i + t@.len()) != t@ by {}
        }
        return false;
    }
    let mut i: usize = 0;
    while i <= n - m
        invariant
            a@ == s@,
            b@ == t@,
            n == a@.len(),
            m == b@.len(),
            m <= n,
            i <= n - m + 1,
            forall|k: int| 0 <= k < i ==> #[trigger] s@.subrange(k, k + t@.len()) != t@,
        decreases n - i,
    {
        let mut j: usize = 0;
        let mut same = true;
        while j < m
            invariant
                a@ == s@,
                b@ == t@,
                n == a@.len(),
                m == b@.len(),
                i + m <= n,
                j <= m,
                same == (forall|k: int| 0 <= k < j ==> a@[i + k] == b@[k]),
            decreases m - j,
        {
            if a[i + j] != b[j] {
                same = false;
            }
            j = j + 1;
        }
        if same {
            assert(s@.subrange(i as int, i + t@.len()) =~= t@);
            return true;
        }
        assert(s@.subrange(i as int, i + t@.len()) != t@) by {
            let k = choose|k: int| 0 <= k < m && a@[i + k] != b@[k];
            assert(s@.subrange(i as int, i + t@.len())[k] == a@[i + k]);
        }
        i = i + 1;
    }
    false
}

/// The outcome of a request, given the response status and body: the body
/// for a 2xx status, otherwise an error naming the status and the body.
pub fn response_result(status: u16, body: String) -> (r: Result<String, String>)
    ensures
        200 <= status < 300 ==> (r matches Ok(b) && b@ == body@),
        !(200 <= status < 300) ==> (r matches Err(e) && e@ == "API error (HTTP "@ + decimal(status as nat) + "): "@ + body@),
{
    if 200 <= status && status < 300 {
        Ok(body)
    } else {
        let mut e = String::from_str("API error (HTTP ");
        let code = crate::text::u64_to_decimal(status as u64);
        e.append(code.as_str());
        e.append("): ");
        e.append(body.as_str());
        Err(e)
    }
}

/// The error reported when a request could not be carried out at all.
pub fn transport_failure(detail: &str) -> (e: String)
    ensures
        e@ == "Network/HTTP request failed: "@ + detail@,
{
    let mut e = String::from_str("Network/HTTP request failed: ");
    e.append(detail);
    e
}

/// The error reported when a response body cannot be read.
pub fn read_failure(detail: &str) -> (e: String)
    ensures
        e@ == "Failed to read response body: "@ + detail@,
{
    let mut e = String::from_str("Failed to read response body: ");
    e.append(detail);
    e
}

/// The error reported when a response does not parse as expected:
/// `Failed to parse <what>: <error>. Response: <body>`.
pub fn parse_failure(what: &str, detail: &str, response: &str) -> (e: String)
    ensures
        e@ == "Failed to parse "@ + what@ + ": "@ + detail@ + ". Response: "@ + response@,
{
    let mut e = String::from_str("Failed to parse ");
    e.append(what);
    e.append(": ");
    e.append(detail);
    e.append(". Response: ");
    e.append(response);
    e
}

/// The error reported when a tiny id cannot be resolved because the answer
/// does not parse: `Failed to resolve tinyId: <error>. Response: <body>`.
pub fn resolve_failure(detail: &str, response: &str) -> (e: String)
    ensures
        e@ == "Failed to resolve tinyId: "@ + detail@ + ". Response: "@ + response@,
{
    let mut e = String::from_str("Failed to resolve tinyId: ");
    e.append(detail);
    e.append(". Response: ");
    e.append(response);
    e
}

/// The cloud id held in a tenant-information document.
pub open spec fn cloud_id_spec(tenant: Json) -> Result<Seq<char>, Seq<char>> {
    match tenant {
        Json::Object(m) => match crate::json::obj_get(m, "cloudId"@) {
            Some(Json::Str(s)) => Ok(s),
            _ => Err("cloudId not found in tenant_info response"@),
        },
        _ => Err("cloudId not found in tenant_info response"@),
    }
}

/// Takes the cloud id out of the site's tenant information.
pub fn cloud_id_of(tenant: &JsonValue) -> (r: Result<String, String>)
    ensures
        string_result_view(r) == cloud_id_spec(tenant@),
{
    proof {
        crate::json::lemma_view_parts(*tenant);
    }
    match tenant {
        JsonValue::Object(m) => {
            proof {
                crate::json::lemma_obj_index(crate::json::json_entries(m@), "cloudId"@);
            }
            match crate::json::object_get(m, "cloudId") {
                Some(JsonValue::Str(s)) => Ok(s.clone()),
                _ => Err(String::from_str("cloudId not found in tenant_info response")),
            }
        },
        _ => Err(String::from_str("cloudId not found in tenant_info response")),
    }
}

pub open spec fn string_result_view(r: Result<String, String>) -> Result<Seq<char>, Seq<char>> {
    match r {
        Ok(s) => Ok(s@),
        Err(e) => Err(e@),
    }
}

pub open spec fn header_view(h: Seq<(String, String)>) -> Seq<(Seq<char>, Seq<char>)> {
    Seq::new(h.len(), |i: int| (h[i].0@, h[i].1@))
}

pub(crate) fn has_prefix(s: &Vec<char>, p: &[char]) -> (r: bool)
    ensures
        r == starts_with(s@, p@),
{
    if p.len() > s.len() {
        return false;
    }
    let n = p.len();
    for i in 0..n
        invariant
            n == p@.len(),
            n <= s@.len(),
            forall|k: int| 0 <= k < i ==> s@[k] == p@[k],
    {
        if s[i] != p[i] {
            return false;
        }
    }
    assert(s@.take(n as int) =~= p@);
    true
}

} // verus!
