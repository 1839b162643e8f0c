//! OAuth 2.0 for MCP servers: tokens, the authorization code flow with PKCE,
//! and what is done when a token runs out.
use vstd::prelude::*;
use vstd::string::*;
use vstd::utf8::encode_utf8;
use crate::error::{Error, Result};
use crate::json::{Json, JsonView};
use crate::text::{
    cat2, cat3, contains, end_trimmed_of, find_chars, find_from, has, has_prefix, holds, lemma_find_from,
    is_space, law_lines_of_a_text, law_words_of_a_text, lemma_holds, lemma_holds_grows, lemma_holds_last,
    lemma_pieces_concat, lemma_pieces_single, lines, occurs_at, pieces, slice, split_char, split_whitespace, str_eq, strip_prefix,
    text_lines, to_chars, trim_end_char, truncate, views, words,
};

verus! {

/// OAuth 2.0 token set, cached to disk.
#[derive(Debug)]
pub struct TokenSet {
    pub access_token: String,
    pub refresh_token: Option<String>,
    /// When the access token runs out, in seconds since 1970 began in UTC.
    pub expires_at: u64,
}

/// Dynamic client registration response.
#[derive(Debug)]
pub struct ClientRegistration {
    pub client_id: String,
    pub client_secret: Option<String>,
}

/// Cached OAuth state (client registration + tokens).
#[derive(Debug)]
pub struct OAuthCache {
    pub server_url: String,
    pub client: ClientRegistration,
    pub tokens: Option<TokenSet>,
}

impl Clone for TokenSet {
    fn clone(&self) -> (r: Self)
        ensures
            r == *self,
    {
        TokenSet {
            access_token: self.access_token.clone(),
            refresh_token: self.refresh_token.clone(),
            expires_at: self.expires_at,
        }
    }
}

impl Clone for ClientRegistration {
    fn clone(&self) -> (r: Self)
        ensures
            r == *self,
    {
        ClientRegistration {
            client_id: self.client_id.clone(),
            client_secret: self.client_secret.clone(),
        }
    }
}

impl TokenSet {
    /// The token counts as expired from 60 seconds before it runs out.
    pub open spec fn expired_at(&self, now: u64) -> bool {
        now + 60 >= self.expires_at
    }

    /// Whether the token counts as expired, `now` seconds after 1970 began in
    /// UTC: 60 seconds before it runs out, so that it is refreshed in time.
    pub fn is_expired(&self, now: u64) -> (r: bool)
        requires
            now + 60 <= u64::MAX,
        ensures
            r == self.expired_at(now),
    {
        now + 60 >= self.expires_at
    }

    /// The tokens that a server gave `now` seconds after 1970 began in UTC, for
    /// an hour where it does not say for how long.
    pub fn granted(
        access_token: String,
        refresh_token: Option<String>,
        expires_in: Option<u64>,
        now: u64,
    ) -> (r: Self)
        requires
            now + (match expires_in {
                Some(n) => n,
                None => 3600,
            }) <= u64::MAX,
        ensures
            r.access_token == access_token,
            r.refresh_token == refresh_token,
            r.expires_at == now + (match expires_in {
                Some(n) => n,
                None => 3600,
            }),
    {
        let lifetime: u64 = match expires_in {
            Some(n) => n,
            None => 3600,
        };
        TokenSet { access_token, refresh_token, expires_at: now + lifetime }
    }
}

/// A byte of a sequence, 0 beyond its end.
pub open spec fn byte_at(b: Seq<u8>, i: int) -> int {
    if 0 <= i < b.len() {
        b[i] as int
    } else {
        0
    }
}

/// Bits `6 * i` to `6 * i + 6` of a sequence of bytes, as a number.
pub open spec fn sextet(b: Seq<u8>, i: int) -> int {
    let k = 6 * i / 8;
    let offset = 6 * i % 8;
    let word = byte_at(b, k) * 256 + byte_at(b, k + 1);
    let unit = if offset == 0 {
        1024int
    } else if offset == 2 {
        256
    } else if offset == 4 {
        64
    } else {
        16
    };
    word / unit % 64
}

/// The character of six bits in the URL-safe alphabet of base64.
pub open spec fn base64_char(v: int) -> char {
    if v < 26 {
        (('A' as u32) + v) as char
    } else if v < 52 {
        (('a' as u32) + v - 26) as char
    } else if v < 62 {
        (('0' as u32) + v - 52) as char
    } else if v == 62 {
        '-'
    } else {
        '_'
    }
}

/// Bytes in URL-safe base64 without padding: a character for each six bits.
pub open spec fn base64_text(b: Seq<u8>) -> Seq<char> {
    Seq::new((8 * b.len() + 5) / 6, |i: int| base64_char(sextet(b, i)))
}

/// The SHA-256 digest of bytes.
pub uninterp spec fn sha256_digest(data: Seq<u8>) -> Seq<u8>;

/// `base64::engine::general_purpose::URL_SAFE_NO_PAD.encode`: the bytes in the
/// URL-safe alphabet, a character for each six bits, the last one filled up
/// with zero bits, and no padding.
#[verifier::external_body]
fn base64_encode(bytes: &Vec<u8>) -> (r: String)
    ensures
        r@ == base64_text(bytes@),
{
    base64::Engine::encode(&base64::engine::general_purpose::URL_SAFE_NO_PAD, bytes)
}

/// `sha2::Sha256::digest`: the digest of the bytes, 32 bytes long. It is a
/// function of the bytes, and is named, not described.
#[verifier::external_body]
fn sha256(data: &[u8]) -> (r: Vec<u8>)
    ensures
        r@ == sha256_digest(data@),
        r@.len() == 32,
{
    <sha2::Sha256 as sha2::Digest>::digest(data).to_vec()
}

/// `rand::Rng::random` on `rand::rng()`: a random byte, of which nothing is
/// claimed.
#[verifier::external_body]
fn random_byte() -> (r: u8) {
    rand::Rng::random(&mut rand::rng())
}

/// Random bytes.
fn random_bytes(len: usize) -> (r: Vec<u8>)
    ensures
        r@.len() == len,
{
    let mut bytes: Vec<u8> = Vec::new();
    while bytes.len() < len
        invariant
            bytes@.len() <= len,
        decreases len - bytes@.len(),
    {
        bytes.push(random_byte());
    }
    bytes
}

/// Bytes in URL-safe base64 without padding.
pub fn encode_bytes(bytes: &Vec<u8>) -> (r: String)
    ensures
        r@ == base64_text(bytes@),
{
    base64_encode(bytes)
}

/// A text made of random bytes.
pub fn generate_random_string(len: usize) -> (r: String)
    ensures
        exists|bytes: Seq<u8>| bytes.len() == len && r@ == #[trigger] base64_text(bytes),
{
    let bytes = random_bytes(len);
    encode_bytes(&bytes)
}

/// A secret that a client proves its identity with: 32 random bytes in base64.
pub fn generate_pkce_verifier() -> (r: String)
    ensures
        exists|bytes: Seq<u8>| bytes.len() == 32 && r@ == #[trigger] base64_text(bytes),
        r@.len() == 43,
{
    generate_random_string(32)
}

/// What a server is shown of a verifier: its digest in base64.
pub open spec fn challenge_of(verifier: Seq<char>) -> Seq<char> {
    base64_text(sha256_digest(encode_utf8(verifier)))
}

/// What a server is shown of a verifier.
pub fn generate_pkce_challenge(verifier: &str) -> (r: String)
    ensures
        r@ == challenge_of(verifier@),
{
    let digest = sha256(verifier.as_bytes());
    encode_bytes(&digest)
}

/// The name of the file that holds the cached state for a server: 16 characters
/// of the digest of its URL.
pub fn cache_file_name(server_url: &str) -> (r: String)
    ensures
        r@ == challenge_of(server_url@).take(16) + ".json"@,
{
    let digest = sha256(server_url.as_bytes());
    let hash = encode_bytes(&digest);
    let short = truncate(hash.as_str(), 16);
    cat2(short.as_str(), ".json")
}

/// The characters of a base64 text are letters, digits, hyphens and underscores.
pub proof fn law_base64_is_url_safe(b: Seq<u8>)
    ensures
        forall|i: int|
            0 <= i < base64_text(b).len() ==> is_unreserved(#[trigger] base64_text(b)[i]),
{
    assert forall|i: int| 0 <= i < base64_text(b).len() implies is_unreserved(
        #[trigger] base64_text(b)[i],
    ) by {
        let v = sextet(b, i);
        assert(0 <= v < 64);
        lemma_base64_char(v);
    }
}

proof fn lemma_base64_char(v: int)
    requires
        0 <= v < 64,
    ensures
        is_unreserved(base64_char(v)),
{
}

/// A character that stands for itself in a URL.
pub open spec fn is_unreserved(c: char) -> bool {
    ||| 'A' <= c <= 'Z'
    ||| 'a' <= c <= 'z'
    ||| '0' <= c <= '9'
    ||| c == '-'
    ||| c == '_'
    ||| c == '.'
    ||| c == '~'
}

/// A hexadecimal digit.
pub open spec fn hex_char(d: int) -> char {
    if d < 10 {
        (('0' as u32) + d) as char
    } else {
        (('A' as u32) + d - 10) as char
    }
}

/// A character as a URL holds it: itself, or "%" and the lowest byte of its
/// code in hexadecimal.
pub open spec fn encoded_char(c: char) -> Seq<char> {
    if is_unreserved(c) {
        seq![c]
    } else {
        let n = (c as u32) % 256;
        seq!['%', hex_char(n as int / 16), hex_char(n as int % 16)]
    }
}

/// A text as a URL holds it.
pub open spec fn encoded(s: Seq<char>) -> Seq<char>
    decreases s.len(),
{
    if s.len() == 0 {
        seq![]
    } else {
        encoded_char(s[0]) + encoded(s.skip(1))
    }
}

/// The value of a hexadecimal digit.
pub open spec fn hex_value(c: char) -> Option<u8> {
    if '0' <= c <= '9' {
        Some((c as u32 - '0' as u32) as u8)
    } else if 'a' <= c <= 'f' {
        Some((c as u32 - 'a' as u32 + 10) as u8)
    } else if 'A' <= c <= 'F' {
        Some((c as u32 - 'A' as u32 + 10) as u8)
    } else {
        None
    }
}

/// The byte that at most two characters give in hexadecimal; a leading "+" of
/// two is a sign.
pub open spec fn hex_byte(h: Seq<char>) -> Option<u8> {
    if h.len() == 1 {
        hex_value(h[0])
    } else if h.len() == 2 {
        if h[0] == '+' {
            hex_value(h[1])
        } else {
            match (hex_value(h[0]), hex_value(h[1])) {
                (Some(a), Some(b)) => Some((a * 16 + b) as u8),
                _ => None,
            }
        }
    } else {
        None
    }
}

/// What stands after a "%": at most two characters.
pub open spec fn after_percent(s: Seq<char>) -> Seq<char> {
    if s.len() >= 3 {
        s.subrange(1, 3)
    } else {
        s.skip(1)
    }
}

/// A text that a URL holds: "%" and a byte in hexadecimal as the character with
/// that code, "+" as a space, and the rest, a "%" without a byte too, as it is.
pub open spec fn decoded(s: Seq<char>) -> Seq<char>
    decreases s.len(),
{
    if s.len() == 0 {
        seq![]
    } else if s[0] == '%' {
        let h = after_percent(s);
        let rest = decoded(s.skip(1 + h.len() as int));
        match hex_byte(h) {
            Some(b) => seq![b as char] + rest,
            None => seq!['%'] + h + rest,
        }
    } else if s[0] == '+' {
        seq![' '] + decoded(s.skip(1))
    } else {
        seq![s[0]] + decoded(s.skip(1))
    }
}

fn hex_digit(d: u8) -> (r: char)
    requires
        d < 16,
    ensures
        r == hex_char(d as int),
{
    if d < 10 {
        (48u8 + d) as char
    } else {
        (55u8 + d) as char
    }
}

fn unreserved(c: char) -> (r: bool)
    ensures
        r == is_unreserved(c),
{
    ('A' <= c && c <= 'Z') || ('a' <= c && c <= 'z') || ('0' <= c && c <= '9') || c == '-' || c
        == '_' || c == '.' || c == '~'
}

/// A text as a URL holds it.
pub fn urlencoded(s: &str) -> (r: String)
    ensures
        r@ == encoded(s@),
{
    let v = to_chars(s);
    let mut out = String::new();
    let mut i: usize = 0;
    assert(v@.skip(0) =~= v@);
    assert(out@ + encoded(v@.skip(0)) =~= encoded(v@));
    while i < v.len()
        invariant
            i <= v@.len(),
            out@ + encoded(v@.skip(i as int)) == encoded(v@),
        decreases v@.len() - i,
    {
        let ghost rest = v@.skip(i as int);
        let ghost before = out@;
        assert(rest[0] == v@[i as int]);
        assert(rest.skip(1) =~= v@.skip(i + 1));
        let c = v[i];
        if unreserved(c) {
            out.push(c);
        } else {
            let n: u8 = ((c as u32) % 256) as u8;
            out.push('%');
            out.push(hex_digit(n / 16));
            out.push(hex_digit(n % 16));
        }
        assert(out@ =~= before + encoded_char(c));
        assert(out@ + encoded(v@.skip(i + 1)) =~= before + encoded(rest));
        i += 1;
    }
    assert(v@.skip(i as int) =~= seq![]);
    assert(out@ + encoded(v@.skip(i as int)) =~= out@);
    out
}

fn hex_number(c: char) -> (r: Option<u8>)
    ensures
        r == hex_value(c),
{
    if '0' <= c && c <= '9' {
        Some((c as u32 - 48) as u8)
    } else if 'a' <= c && c <= 'f' {
        Some((c as u32 - 87) as u8)
    } else if 'A' <= c && c <= 'F' {
        Some((c as u32 - 55) as u8)
    } else {
        None
    }
}

fn byte_of(v: &Vec<char>, from: usize, to: usize) -> (r: Option<u8>)
    requires
        from <= to <= v@.len(),
    ensures
        r == hex_byte(v@.subrange(from as int, to as int)),
{
    if to - from == 1 {
        hex_number(v[from])
    } else if to - from == 2 {
        if v[from] == '+' {
            hex_number(v[from + 1])
        } else {
            match (hex_number(v[from]), hex_number(v[from + 1])) {
                (Some(a), Some(b)) => Some(a * 16 + b),
                _ => None,
            }
        }
    } else {
        None
    }
}

/// A text that a URL holds.
pub fn urldecoded(s: &str) -> (r: String)
    ensures
        r@ == decoded(s@),
{
    let v = to_chars(s);
    let mut out = String::new();
    let mut i: usize = 0;
    assert(v@.skip(0) =~= v@);
    assert(out@ + decoded(v@.skip(0)) =~= decoded(v@));
    while i < v.len()
        invariant
            i <= v@.len(),
            out@ + decoded(v@.skip(i as int)) == decoded(v@),
        decreases v@.len() - i,
    {
        let ghost rest = v@.skip(i as int);
        let ghost before = out@;
        assert(rest[0] == v@[i as int]);
        let c = v[i];
        if c == '%' {
            let end: usize = if v.len() - i >= 3 {
                i + 3
            } else {
                v.len()
            };
            let ghost h = after_percent(rest);
            assert(h =~= v@.subrange(i + 1, end as int));
            assert(rest.skip(1 + h.len() as int) =~= v@.skip(end as int));
            match byte_of(&v, i + 1, end) {
                Some(b) => {
                    out.push(b as char);
                    assert(out@ + decoded(v@.skip(end as int)) =~= before + decoded(rest));
                },
                None => {
                    out.push('%');
                    let raw = slice(&v, i + 1, end);
                    out.append(raw.as_str());
                    assert(out@ + decoded(v@.skip(end as int)) =~= before + decoded(rest));
                },
            }
            i = end;
        } else {
            assert(rest.skip(1) =~= v@.skip(i + 1));
            if c == '+' {
                out.push(' ');
            } else {
                out.push(c);
            }
            assert(out@ + decoded(v@.skip(i + 1)) =~= before + decoded(rest));
            i += 1;
        }
    }
    assert(v@.skip(i as int) =~= seq![]);
    assert(out@ + decoded(v@.skip(i as int)) =~= out@);
    out
}

/// Decoding what was encoded gives the text back, where all its characters have
/// codes below 256.
pub proof fn law_url_round_trip(s: Seq<char>)
    requires
        forall|i: int| 0 <= i < s.len() ==> (#[trigger] s[i]) as u32 <= 255,
    ensures
        decoded(encoded(s)) == s,
    decreases s.len(),
{
    if s.len() == 0 {
        assert(decoded(encoded(s)) =~= s);
    } else {
        let c = s[0];
        let tail = s.skip(1);
        assert forall|i: int| 0 <= i < tail.len() implies (#[trigger] tail[i]) as u32 <= 255 by {
            assert(tail[i] == s[i + 1]);
        }
        law_url_round_trip(tail);
        let e = encoded(s);
        let rest = encoded(tail);
        assert(s =~= seq![c] + tail);
        if is_unreserved(c) {
            assert(e[0] == c);
            assert(e.skip(1) =~= rest);
            assert(decoded(e) =~= seq![c] + decoded(rest));
        } else {
            let n = (c as u32) % 256;
            let (hi, lo) = (n as int / 16, n as int % 16);
            assert(e[0] == '%');
            assert(after_percent(e) =~= seq![hex_char(hi), hex_char(lo)]);
            assert(e.skip(3) =~= rest);
            lemma_hex(hi);
            lemma_hex(lo);
            assert(hex_byte(after_percent(e)) == Some(n as u8));
            lemma_low_char(c);
            assert(decoded(e) =~= seq![c] + decoded(rest));
        }
        assert(decoded(e) =~= s);
    }
}

/// A hexadecimal digit in upper case.
pub open spec fn is_upper_hex(c: char) -> bool {
    '0' <= c <= '9' || 'A' <= c <= 'F'
}

/// At position `i` of a text stands an unreserved character, or "%" before two
/// hexadecimal digits in upper case.
pub open spec fn is_url_safe_at(t: Seq<char>, i: int) -> bool {
    ||| is_unreserved(t[i])
    ||| t[i] == '%' && i + 2 < t.len() && is_upper_hex(t[i + 1]) && is_upper_hex(t[i + 2])
}

/// An encoded text is made of unreserved characters, and of "%" before two
/// hexadecimal digits in upper case.
pub proof fn law_encoded_is_url_safe(s: Seq<char>)
    ensures
        forall|i: int| 0 <= i < encoded(s).len() ==> #[trigger] is_url_safe_at(encoded(s), i),
    decreases s.len(),
{
    if s.len() > 0 {
        let first = encoded_char(s[0]);
        let rest = encoded(s.skip(1));
        let e = encoded(s);
        law_encoded_is_url_safe(s.skip(1));
        assert forall|i: int| 0 <= i < e.len() implies #[trigger] is_url_safe_at(e, i) by {
            let j = i - first.len();
            if j >= 0 {
                assert(is_url_safe_at(rest, j));
                assert(e[i] == rest[j]);
                if j + 2 < rest.len() {
                    assert(e[i + 1] == rest[j + 1]);
                    assert(e[i + 2] == rest[j + 2]);
                }
            } else {
                assert(e[i] == first[i]);
                if first.len() == 3 {
                    assert(e[1] == first[1] && e[2] == first[2]);
                }
            }
        }
    }
}

proof fn lemma_low_char(c: char)
    requires
        c as u32 <= 255,
    ensures
        ((c as u32 % 256) as u8) as char == c,
{
}

proof fn lemma_hex(d: int)
    requires
        0 <= d < 16,
    ensures
        hex_value(hex_char(d)) == Some(d as u8),
        hex_char(d) != '+',
{
}

/// The scheme and host of a URL.
pub open spec fn base_url(url: Seq<char>) -> Seq<char> {
    if has_prefix(url, "https://"@) {
        "https://"@ + host_part(url.skip("https://"@.len() as int))
    } else if has_prefix(url, "http://"@) {
        "http://"@ + host_part(url.skip("http://"@.len() as int))
    } else {
        url
    }
}

/// What stands before the first "/".
pub open spec fn host_part(rest: Seq<char>) -> Seq<char> {
    match find_from(rest, "/"@, 0) {
        Some(i) => rest.take(i),
        None => rest,
    }
}

fn host_of(rest: &str) -> (r: String)
    ensures
        r@ == host_part(rest@),
{
    let v = to_chars(rest);
    let slash = to_chars("/");
    match find_chars(&v, &slash, 0) {
        Some(i) => {
            assert(v@.subrange(0, i as int) =~= v@.take(i as int));
            slice(&v, 0, i)
        },
        None => rest.to_owned(),
    }
}

/// Derive the OAuth base URL (scheme + host) from the MCP server URL,
/// stripping the path per the MCP OAuth discovery rules.
pub fn oauth_base_url(server_url: &str) -> (r: String)
    ensures
        r@ == base_url(server_url@),
{
    if let Some(rest) = strip_prefix(server_url, "https://") {
        let host = host_of(rest.as_str());
        cat2("https://", host.as_str())
    } else if let Some(rest) = strip_prefix(server_url, "http://") {
        let host = host_of(rest.as_str());
        cat2("http://", host.as_str())
    } else {
        server_url.to_owned()
    }
}

/// Where a server describes its OAuth endpoints.
pub fn metadata_url(server_url: &str) -> (r: String)
    ensures
        r@ == base_url(server_url@) + "/.well-known/oauth-authorization-server"@,
{
    let base = oauth_base_url(server_url);
    cat2(base.as_str(), "/.well-known/oauth-authorization-server")
}

/// A server's URL as it is used: without slashes at its end.
pub fn normalize_url(url: &str) -> (r: String)
    ensures
        r@ == end_trimmed_of(url@, '/'),
{
    trim_end_char(url, '/')
}

/// Where the user authorizes the client.
pub open spec fn authorization_url_of(
    endpoint: Seq<char>,
    client_id: Seq<char>,
    state: Seq<char>,
    challenge: Seq<char>,
) -> Seq<char> {
    endpoint + "?response_type=code&client_id="@ + encoded(client_id) + "&redirect_uri="@ + encoded(
        "http://127.0.0.1:19823/callback"@,
    ) + "&state="@ + encoded(state) + "&code_challenge="@ + encoded(challenge)
        + "&code_challenge_method=S256"@
}

/// Where the user authorizes the client.
pub fn authorization_url(
    endpoint: &str,
    client_id: &str,
    state: &str,
    challenge: &str,
) -> (r: String)
    ensures
        r@ == authorization_url_of(endpoint@, client_id@, state@, challenge@),
{
    let id = urlencoded(client_id);
    let redirect = urlencoded("http://127.0.0.1:19823/callback");
    let state = urlencoded(state);
    let challenge = urlencoded(challenge);
    let mut s = endpoint.to_owned();
    s.append("?response_type=code&client_id=");
    s.append(id.as_str());
    s.append("&redirect_uri=");
    s.append(redirect.as_str());
    s.append("&state=");
    s.append(state.as_str());
    s.append("&code_challenge=");
    s.append(challenge.as_str());
    s.append("&code_challenge_method=S256");
    s
}

/// The form fields of a client, with its secret where it has one.
pub open spec fn with_secret(
    fields: Seq<(Seq<char>, Seq<char>)>,
    secret: Option<Seq<char>>,
) -> Seq<(Seq<char>, Seq<char>)> {
    match secret {
        Some(s) => fields.push(("client_secret"@, s)),
        None => fields,
    }
}

/// The form that exchanges a code for tokens.
pub fn exchange_params(client: &ClientRegistration, code: &str, verifier: &str) -> (r: Vec<
    (String, String),
>)
    ensures
        r.deep_view() == with_secret(
            seq![
                ("grant_type"@, "authorization_code"@),
                ("code"@, code@),
                ("redirect_uri"@, "http://127.0.0.1:19823/callback"@),
                ("client_id"@, client.client_id@),
                ("code_verifier"@, verifier@),
            ],
            client.client_secret.deep_view(),
        ),
{
    let mut v: Vec<(String, String)> = Vec::new();
    v.push(("grant_type".to_owned(), "authorization_code".to_owned()));
    v.push(("code".to_owned(), code.to_owned()));
    v.push(("redirect_uri".to_owned(), "http://127.0.0.1:19823/callback".to_owned()));
    v.push(("client_id".to_owned(), client.client_id.clone()));
    v.push(("code_verifier".to_owned(), verifier.to_owned()));
    if let Some(secret) = &client.client_secret {
        v.push(("client_secret".to_owned(), secret.clone()));
    }
    assert(v.deep_view() =~= with_secret(
        seq![
            ("grant_type"@, "authorization_code"@),
            ("code"@, code@),
            ("redirect_uri"@, "http://127.0.0.1:19823/callback"@),
            ("client_id"@, client.client_id@),
            ("code_verifier"@, verifier@),
        ],
        client.client_secret.deep_view(),
    ));
    v
}

/// The form that exchanges a refresh token for new tokens.
pub fn refresh_params(client: &ClientRegistration, refresh_token: &str) -> (r: Vec<(String, String)>)
    ensures
        r.deep_view() == with_secret(
            seq![
                ("grant_type"@, "refresh_token"@),
                ("refresh_token"@, refresh_token@),
                ("client_id"@, client.client_id@),
            ],
            client.client_secret.deep_view(),
        ),
{
    let mut v: Vec<(String, String)> = Vec::new();
    v.push(("grant_type".to_owned(), "refresh_token".to_owned()));
    v.push(("refresh_token".to_owned(), refresh_token.to_owned()));
    v.push(("client_id".to_owned(), client.client_id.clone()));
    if let Some(secret) = &client.client_secret {
        v.push(("client_secret".to_owned(), secret.clone()));
    }
    assert(v.deep_view() =~= with_secret(
        seq![
            ("grant_type"@, "refresh_token"@),
            ("refresh_token"@, refresh_token@),
            ("client_id"@, client.client_id@),
        ],
        client.client_secret.deep_view(),
    ));
    v
}

/// The two sides of the first "=" of a pair.
pub open spec fn sides(pair: Seq<char>) -> Option<(Seq<char>, Seq<char>)> {
    match find_from(pair, "="@, 0) {
        Some(i) => Some((pair.take(i), pair.skip(i + 1))),
        None => None,
    }
}

/// The value of the last pair with a given name, decoded.
pub open spec fn parameter(pairs: Seq<Seq<char>>, name: Seq<char>) -> Option<Seq<char>>
    decreases pairs.len(),
{
    if pairs.len() == 0 {
        None
    } else {
        match sides(pairs.last()) {
            Some((key, value)) => if key == name {
                Some(decoded(value))
            } else {
                parameter(pairs.drop_last(), name)
            },
            None => parameter(pairs.drop_last(), name),
        }
    }
}

/// The target of an HTTP request: the second word of its first line.
pub open spec fn request_target(request: Seq<char>) -> Option<Seq<char>> {
    let ls = text_lines(request);
    if ls.len() > 0 && words(ls[0]).len() > 1 {
        Some(words(ls[0])[1])
    } else {
        None
    }
}

/// The parameters of an HTTP request: what stands between the first "?" of its
/// target and the next.
pub open spec fn request_query(request: Seq<char>) -> Option<Seq<char>> {
    match request_target(request) {
        Some(t) => if pieces(t, '?').len() > 1 {
            Some(pieces(t, '?')[1])
        } else {
            None
        },
        None => None,
    }
}

/// The page that tells a user that authorization failed.
pub open spec fn failure_page(error: Seq<char>) -> Seq<char> {
    "HTTP/1.1 200 OK\r\nContent-Type: text/html\r\nConnection: close\r\n\r\n<html><body><h2>Authorization failed: "@
        + error + "</h2><p>You can close this tab.</p></body></html>"@
}

/// The page that tells a user that authorization succeeded.
pub open spec fn success_page() -> Seq<char> {
    "HTTP/1.1 200 OK\r\nContent-Type: text/html\r\nConnection: close\r\n\r\n<html><body><h2>Symposium authorized!</h2><p>You can close this tab.</p></body></html>"@
}

/// What a callback comes to: the page that is sent back, if any, and the code
/// or what is wrong. An error that the server reports counts before anything
/// else; a code counts only with the state that was sent along.
pub open spec fn callback_of(request: Seq<char>, expected_state: Seq<char>) -> (
    Option<Seq<char>>,
    std::result::Result<Seq<char>, Seq<char>>,
) {
    if request_target(request) is None {
        (None, Err("malformed callback request"@))
    } else {
        match request_query(request) {
            None => (None, Err("no query params in callback"@)),
            Some(query) => {
                let pairs = pieces(query, '&');
                match parameter(pairs, "error"@) {
                    Some(error) => (
                        Some(failure_page(error)),
                        Err("OAuth authorization denied: "@ + error),
                    ),
                    None => match (parameter(pairs, "code"@), parameter(pairs, "state"@)) {
                        (None, _) => (None, Err("no code in callback"@)),
                        (Some(_), None) => (None, Err("no state in callback"@)),
                        (Some(code), Some(state)) => if state == expected_state {
                            (Some(success_page()), Ok(code))
                        } else {
                            (None, Err("OAuth state mismatch"@))
                        },
                    },
                }
            },
        }
    }
}

fn find_parameter(pairs: &Vec<String>, name: &str) -> (r: Option<String>)
    ensures
        r.deep_view() == parameter(views(pairs@), name@),
{
    let ghost ps = views(pairs@);
    let equals = to_chars("=");
    let mut i: usize = pairs.len();
    assert(ps.take(i as int) =~= ps);
    while i > 0
        invariant
            i <= pairs@.len(),
            ps == views(pairs@),
            equals@ == "="@,
            parameter(ps, name@) == parameter(ps.take(i as int), name@),
        decreases i,
    {
        i -= 1;
        let ghost now = ps.take(i + 1);
        assert(now.drop_last() =~= ps.take(i as int));
        assert(now.last() == pairs@[i as int]@);
        let v = to_chars(pairs[i].as_str());
        if let Some(k) = find_chars(&v, &equals, 0) {
            proof {
                reveal_strlit("=");
                assert(v@.subrange(0, k as int) =~= v@.take(k as int));
                assert(v@.subrange(k + 1, v@.len() as int) =~= v@.skip(k + 1));
            }
            let key = slice(&v, 0, k);
            if str_eq(key.as_str(), name) {
                let value = slice(&v, k + 1, v.len());
                return Some(urldecoded(value.as_str()));
            }
        }
    }
    None
}

/// What a callback comes to: the page that is sent back, if any, and the code.
pub fn read_callback(request: &str, expected_state: &str) -> (r: (Option<String>, Result<String>))
    ensures
        r.0.deep_view() == callback_of(request@, expected_state@).0,
        match (r.1, callback_of(request@, expected_state@).1) {
            (Ok(code), Ok(c)) => code@ == c,
            (Err(e), Err(m)) => e is Mcp && e.detail() == m,
            _ => false,
        },
{
    let all = lines(request);
    let ghost ls = text_lines(request@);
    let mut target = String::new();
    let mut found = false;
    if all.len() > 0 {
        assert(ls[0] == all@[0]@);
        let parts = split_whitespace(all[0].as_str());
        if parts.len() > 1 {
            assert(words(ls[0])[1] == parts@[1]@);
            target = parts[1].clone();
            found = true;
        }
    }
    if !found {
        return (None, Err(Error::Mcp("malformed callback request".to_owned())));
    }
    let cut = split_char(target.as_str(), '?');
    if cut.len() < 2 {
        return (None, Err(Error::Mcp("no query params in callback".to_owned())));
    }
    assert(pieces(target@, '?')[1] == cut@[1]@);
    let pairs = split_char(cut[1].as_str(), '&');
    if let Some(error) = find_parameter(&pairs, "error") {
        let page = cat3(
            "HTTP/1.1 200 OK\r\nContent-Type: text/html\r\nConnection: close\r\n\r\n<html><body><h2>Authorization failed: ",
            error.as_str(),
            "</h2><p>You can close this tab.</p></body></html>",
        );
        return (
            Some(page),
            Err(Error::Mcp(cat2("OAuth authorization denied: ", error.as_str()))),
        );
    }
    let code = match find_parameter(&pairs, "code") {
        Some(c) => c,
        None => {
            return (None, Err(Error::Mcp("no code in callback".to_owned())));
        },
    };
    let state = match find_parameter(&pairs, "state") {
        Some(s) => s,
        None => {
            return (None, Err(Error::Mcp("no state in callback".to_owned())));
        },
    };
    if !str_eq(state.as_str(), expected_state) {
        return (None, Err(Error::Mcp("OAuth state mismatch".to_owned())));
    }
    let page = "HTTP/1.1 200 OK\r\nContent-Type: text/html\r\nConnection: close\r\n\r\n<html><body><h2>Symposium authorized!</h2><p>You can close this tab.</p></body></html>".to_owned();
    (Some(page), Ok(code))
}

/// A code is taken from a callback only where the callback carries the state
/// that was sent along and no error.
pub proof fn law_code_needs_state(request: Seq<char>, expected_state: Seq<char>)
    requires
        callback_of(request, expected_state).1 is Ok,
    ensures
        request_query(request) is Some,
        parameter(pieces(request_query(request)->0, '&'), "state"@) == Some(expected_state),
        parameter(pieces(request_query(request)->0, '&'), "error"@) is None,
{
}

/// Whether an error comes from the token endpoint rejecting the refresh token
/// as revoked or expired.
pub fn is_invalid_grant(err: &Error) -> (r: bool)
    ensures
        r == has(err.prefix() + err.detail(), "invalid_grant"@),
{
    let m = err.message();
    contains(m.as_str(), "invalid_grant")
}

/// How a valid access token is got.
#[derive(Debug)]
pub enum TokenPlan {
    /// Use the cached one.
    Use { token: String },
    /// Refresh it; where that fails, have the user authorize the client anew.
    Refresh { client: ClientRegistration, refresh_token: String },
    /// Have the user authorize the client.
    Authorize,
}

/// How a valid access token is got, by what is cached.
pub fn plan_token(cache: &Option<OAuthCache>, now: u64) -> (r: TokenPlan)
    requires
        now + 60 <= u64::MAX,
    ensures
        match *cache {
            Some(c) => match c.tokens {
                Some(t) => if !t.expired_at(now) {
                    r matches TokenPlan::Use { token } && token == t.access_token
                } else {
                    match t.refresh_token {
                        Some(refresh) => r matches TokenPlan::Refresh { client, refresh_token }
                            && client == c.client && refresh_token == refresh,
                        None => r is Authorize,
                    }
                },
                None => r is Authorize,
            },
            None => r is Authorize,
        },
{
    if let Some(c) = cache {
        if let Some(t) = &c.tokens {
            if !t.is_expired(now) {
                return TokenPlan::Use { token: t.access_token.clone() };
            }
            if let Some(refresh) = &t.refresh_token {
                return TokenPlan::Refresh {
                    client: c.client.clone(),
                    refresh_token: refresh.clone(),
                };
            }
        }
    }
    TokenPlan::Authorize
}

/// Put new tokens into the cache; the access token.
pub fn keep_tokens(cache: &mut OAuthCache, tokens: TokenSet) -> (r: String)
    ensures
        r == tokens.access_token,
        *final(cache) == (OAuthCache { tokens: Some(tokens), ..*old(cache) }),
{
    let access = tokens.access_token.clone();
    cache.tokens = Some(tokens);
    access
}

/// Take the outcome of a refresh of an expired token: the new access token, or
/// nothing where it failed and the user has to authorize the client anew.
pub fn settle_refresh(cache: &mut OAuthCache, result: Result<TokenSet>) -> (r: Option<String>)
    ensures
        match result {
            Ok(tokens) => r == Some(tokens.access_token) && *final(cache) == (OAuthCache {
                tokens: Some(tokens),
                ..*old(cache)
            }),
            Err(_) => r is None && *final(cache) == *old(cache),
        },
{
    match result {
        Ok(tokens) => Some(keep_tokens(cache, tokens)),
        Err(_) => None,
    }
}

/// What a refresh that is asked for, whatever the expiry says, is made with.
pub fn plan_forced_refresh(cache: &Option<OAuthCache>) -> (r: Result<(ClientRegistration, String)>)
    ensures
        match (r, *cache) {
            (Ok((client, refresh)), Some(c)) => c.tokens is Some && c.tokens->0.refresh_token == Some(
                refresh,
            ) && client == c.client,
            (Err(e), None) => e is Mcp && e.detail()
                == "no OAuth cache on disk; re-authorize out of band"@,
            (Err(e), Some(c)) => e is Mcp && match c.tokens {
                None => e.detail() == "no cached tokens; re-authorize out of band"@,
                Some(t) => t.refresh_token is None && e.detail()
                    == "no refresh token available; re-authorize out of band"@,
            },
            _ => false,
        },
{
    match cache {
        Some(c) => match &c.tokens {
            Some(t) => match &t.refresh_token {
                Some(refresh) => Ok((c.client.clone(), refresh.clone())),
                None => Err(
                    Error::Mcp("no refresh token available; re-authorize out of band".to_owned()),
                ),
            },
            None => Err(Error::Mcp("no cached tokens; re-authorize out of band".to_owned())),
        },
        None => Err(Error::Mcp("no OAuth cache on disk; re-authorize out of band".to_owned())),
    }
}

/// What follows a refresh that was asked for.
#[derive(Debug)]
pub enum ForcedRefresh {
    /// The new access token.
    Token { token: String },
    /// The refresh failed: the caller is told, and the user is not asked.
    Fail { error: Error },
}

/// Take the outcome of a refresh that was asked for.
///
/// Every failure, a revoked or expired refresh token among them, is reported
/// and leaves the cache as it is.
pub fn settle_forced_refresh(cache: &mut Option<OAuthCache>, result: Result<TokenSet>) -> (r: ForcedRefresh)
    requires
        *old(cache) is Some,
    ensures
        match result {
            Ok(tokens) => {
                &&& r matches ForcedRefresh::Token { token } && token == tokens.access_token
                &&& *final(cache) == Some(
                    (OAuthCache { tokens: Some(tokens), ..(*old(cache))->0 }),
                )
            },
            Err(e) => {
                &&& r matches ForcedRefresh::Fail { error } && error == e
                &&& *final(cache) == *old(cache)
            },
        },
{
    match result {
        Ok(tokens) => {
            let token = tokens.access_token.clone();
            if let Some(c) = cache.take() {
                *cache = Some(
                    OAuthCache { server_url: c.server_url, client: c.client, tokens: Some(tokens) },
                );
            }
            ForcedRefresh::Token { token }
        },
        Err(e) => ForcedRefresh::Fail { error: e },
    }
}

/// Where the registration of the client comes from.
#[derive(Debug)]
pub enum ClientSource {
    /// It is cached for this server.
    Cached { client: ClientRegistration },
    /// It is asked for at this URL.
    Register { url: String },
}

/// Where the registration of the client comes from.
pub fn plan_client(
    cache: &Option<OAuthCache>,
    server_url: &str,
    registration_endpoint: &Option<String>,
) -> (r: Result<ClientSource>)
    ensures
        ({
            let cached = cache is Some && cache->0.server_url@ == server_url@;
            match r {
                Ok(ClientSource::Cached { client }) => cached && client == cache->0.client,
                Ok(ClientSource::Register { url }) => !cached && *registration_endpoint == Some(url),
                Err(e) => !cached && registration_endpoint is None && e is Mcp && e.detail()
                    == "MCP server does not support dynamic client registration"@,
            }
        }),
{
    if let Some(c) = cache {
        if str_eq(c.server_url.as_str(), server_url) {
            return Ok(ClientSource::Cached { client: c.client.clone() });
        }
    }
    match registration_endpoint {
        Some(url) => Ok(ClientSource::Register { url: url.clone() }),
        None => Err(
            Error::Mcp("MCP server does not support dynamic client registration".to_owned()),
        ),
    }
}

/// What a client registers with.
pub open spec fn registration() -> JsonView {
    JsonView::Object(
        seq![
            ("client_name"@, JsonView::Str("symposium"@)),
            (
                "redirect_uris"@,
                JsonView::Array(seq![JsonView::Str("http://127.0.0.1:19823/callback"@)]),
            ),
            (
                "grant_types"@,
                JsonView::Array(
                    seq![JsonView::Str("authorization_code"@), JsonView::Str("refresh_token"@)],
                ),
            ),
            ("response_types"@, JsonView::Array(seq![JsonView::Str("code"@)])),
            ("token_endpoint_auth_method"@, JsonView::Str("none"@)),
        ],
    )
}

fn list1(a: &str) -> (r: Json)
    ensures
        r.deep_view() == JsonView::Array(seq![JsonView::Str(a@)]),
{
    let mut v: Vec<Json> = Vec::new();
    v.push(Json::string(a));
    let r = Json::Array(v);
    assert(r.deep_view()->Array_0 =~= seq![JsonView::Str(a@)]);
    r
}

fn list2(a: &str, b: &str) -> (r: Json)
    ensures
        r.deep_view() == JsonView::Array(seq![JsonView::Str(a@), JsonView::Str(b@)]),
{
    let mut v: Vec<Json> = Vec::new();
    v.push(Json::string(a));
    v.push(Json::string(b));
    let r = Json::Array(v);
    assert(r.deep_view()->Array_0 =~= seq![JsonView::Str(a@), JsonView::Str(b@)]);
    r
}

/// What a client registers with.
pub fn registration_request() -> (r: Json)
    ensures
        r.deep_view() == registration(),
{
    let mut entries: Vec<(String, Json)> = Vec::new();
    entries.push(("client_name".to_owned(), Json::string("symposium")));
    entries.push(("redirect_uris".to_owned(), list1("http://127.0.0.1:19823/callback")));
    entries.push(("grant_types".to_owned(), list2("authorization_code", "refresh_token")));
    entries.push(("response_types".to_owned(), list1("code")));
    entries.push(("token_endpoint_auth_method".to_owned(), Json::string("none")));
    let r = Json::Object(entries);
    assert(r.deep_view()->Object_0 =~= registration()->Object_0);
    r
}

/// A token counts as expired from a minute before it runs out, and not before.
pub proof fn law_token_expires_a_minute_early(tokens: TokenSet, now: u64)
    ensures
        now + 60 < tokens.expires_at ==> !tokens.expired_at(now),
        now + 60 >= tokens.expires_at ==> tokens.expired_at(now),
{
}

proof fn lemma_host_part(host: Seq<char>, path: Seq<char>)
    requires
        forall|i: int| 0 <= i < host.len() ==> #[trigger] host[i] != '/',
    ensures
        host_part(host) == host,
        host_part(host + "/"@ + path) == host,
{
    reveal_strlit("/");
    let slash = "/"@;
    lemma_find_from(host, slash, 0);
    if let Some(i) = find_from(host, slash, 0) {
        assert(host.subrange(i, i + 1)[0] == slash[0]);
        assert(host[i] == '/');
    }
    let s = host + slash + path;
    let n = host.len() as int;
    lemma_find_from(s, slash, 0);
    assert(s.subrange(n, n + 1) =~= slash);
    assert(occurs_at(s, slash, n));
    let i = find_from(s, slash, 0)->0;
    if i < n {
        assert(s.subrange(i, i + 1)[0] == slash[0]);
        assert(s[i] == host[i]);
    }
    assert(s.take(n) =~= host);
}

/// The base of a URL is its scheme and host, without the path, if there is any.
pub proof fn law_base_is_scheme_and_host(host: Seq<char>, path: Seq<char>)
    requires
        forall|i: int| 0 <= i < host.len() ==> #[trigger] host[i] != '/',
    ensures
        base_url("https://"@ + host) == "https://"@ + host,
        base_url("https://"@ + (host + "/"@ + path)) == "https://"@ + host,
        base_url("http://"@ + host) == "http://"@ + host,
        base_url("http://"@ + (host + "/"@ + path)) == "http://"@ + host,
{
    lemma_host_part(host, path);
    let long = "https://"@;
    let short = "http://"@;
    reveal_strlit("https://");
    reveal_strlit("http://");
    let full = host + "/"@ + path;
    assert((long + host).subrange(0, long.len() as int) =~= long);
    assert((long + host).skip(long.len() as int) =~= host);
    assert((long + full).subrange(0, long.len() as int) =~= long);
    assert((long + full).skip(long.len() as int) =~= full);
    assert((short + host).subrange(0, short.len() as int) =~= short);
    assert((short + host).skip(short.len() as int) =~= host);
    assert((short + full).subrange(0, short.len() as int) =~= short);
    assert((short + full).skip(short.len() as int) =~= full);
    let a = short + host;
    let b = short + full;
    assert(a[4] == ':' && b[4] == ':' && long[4] == 's');
    if has_prefix(a, long) {
        assert(a.subrange(0, long.len() as int)[4] == a[4]);
    }
    if has_prefix(b, long) {
        assert(b.subrange(0, long.len() as int)[4] == b[4]);
    }
}

/// A user is sent to the endpoint with the client's id, the state and the challenge,
/// each encoded under its own name, and to be sent back to the local callback.
pub proof fn law_authorization_url_tells(
    endpoint: Seq<char>,
    client_id: Seq<char>,
    state: Seq<char>,
    challenge: Seq<char>,
)
    ensures
        ({
            let u = authorization_url_of(endpoint, client_id, state, challenge);
            &&& holds(u, endpoint + "?response_type=code"@)
            &&& holds(u, "&client_id="@ + encoded(client_id))
            &&& holds(u, "&redirect_uri="@ + encoded("http://127.0.0.1:19823/callback"@))
            &&& holds(u, "&state="@ + encoded(state))
            &&& holds(u, "&code_challenge="@ + encoded(challenge))
            &&& holds(u, "&code_challenge_method=S256"@)
        }),
{
    let kind = "?response_type=code"@;
    let none = Seq::<char>::empty();
    let k1 = "&client_id="@;
    let k2 = "&redirect_uri="@;
    let k3 = "&state="@;
    let k4 = "&code_challenge="@;
    let k5 = "&code_challenge_method=S256"@;
    assert("?response_type=code&client_id="@ =~= kind + k1) by {
        reveal_strlit("?response_type=code&client_id=");
        reveal_strlit("?response_type=code");
        reveal_strlit("&client_id=");
    }
    assert(none + k2 =~= k2);
    assert(none + k3 =~= k3);
    assert(none + k4 =~= k4);
    assert(none + k5 =~= k5);
    let e1 = encoded(client_id);
    let e2 = encoded("http://127.0.0.1:19823/callback"@);
    let e3 = encoded(state);
    let e4 = encoded(challenge);
    let u0 = endpoint + (kind + k1);
    let u1 = u0 + e1;
    let u2 = u1 + k2;
    let u3 = u2 + e2;
    let u4 = u3 + k3;
    let u5 = u4 + e3;
    let u6 = u5 + k4;
    let u7 = u6 + e4;
    lemma_holds(u0, none, endpoint + kind, k1);
    lemma_holds_last(endpoint, kind, k1, e1);
    lemma_holds_last(u1, none, k2, e2);
    lemma_holds_last(u3, none, k3, e3);
    lemma_holds_last(u5, none, k4, e4);
    lemma_holds(u7 + k5, u7, k5, none);
    lemma_holds_grows(u0, e1);
    lemma_holds_grows(u1, k2);
    lemma_holds_grows(u2, e2);
    lemma_holds_grows(u3, k3);
    lemma_holds_grows(u4, e3);
    lemma_holds_grows(u5, k4);
    lemma_holds_grows(u6, e4);
    lemma_holds_grows(u7, k5);
    assert(authorization_url_of(endpoint, client_id, state, challenge) == u7 + k5);
}

/// A client with a secret sends it behind its other fields; one without sends none.
pub proof fn law_secret_sent_where_there_is_one(
    fields: Seq<(Seq<char>, Seq<char>)>,
    secret: Seq<char>,
)
    ensures
        with_secret(fields, None) == fields,
        with_secret(fields, Some(secret)) == fields + seq![("client_secret"@, secret)],
{
    assert(with_secret(fields, Some(secret)) =~= fields + seq![("client_secret"@, secret)]);
}

/// A parameter has the value of the last pair with its name, decoded; pairs with other
/// names, and what is no pair, do not matter to it.
pub proof fn law_last_pair_gives_parameter(
    pairs: Seq<Seq<char>>,
    name: Seq<char>,
    other: Seq<char>,
    value: Seq<char>,
    bare: Seq<char>,
)
    requires
        forall|i: int| 0 <= i < name.len() ==> #[trigger] name[i] != '=',
        forall|i: int| 0 <= i < other.len() ==> #[trigger] other[i] != '=',
        forall|i: int| 0 <= i < bare.len() ==> #[trigger] bare[i] != '=',
        other != name,
    ensures
        parameter(seq![], name) is None,
        parameter(pairs.push(name + "="@ + value), name) == Some(decoded(value)),
        parameter(pairs.push(other + "="@ + value), name) == parameter(pairs, name),
        parameter(pairs.push(bare), name) == parameter(pairs, name),
{
    lemma_sides(name, value);
    lemma_sides(other, value);
    assert(pairs.push(name + "="@ + value).drop_last() =~= pairs);
    assert(pairs.push(other + "="@ + value).drop_last() =~= pairs);
    assert(pairs.push(bare).drop_last() =~= pairs);
    reveal_strlit("=");
    lemma_find_from(bare, "="@, 0);
    if let Some(i) = find_from(bare, "="@, 0) {
        assert(bare.subrange(i, i + 1)[0] == "="@[0]);
        assert(bare[i] == '=');
    }
}

proof fn lemma_sides(name: Seq<char>, value: Seq<char>)
    requires
        forall|i: int| 0 <= i < name.len() ==> #[trigger] name[i] != '=',
    ensures
        sides(name + "="@ + value) == Some((name, value)),
{
    reveal_strlit("=");
    let eq = "="@;
    let s = name + eq + value;
    let n = name.len() as int;
    lemma_find_from(s, eq, 0);
    assert(s.subrange(n, n + 1) =~= eq);
    assert(occurs_at(s, eq, n));
    let i = find_from(s, eq, 0)->0;
    if i < n {
        assert(s.subrange(i, i + 1)[0] == eq[0]);
        assert(s[i] == name[i]);
    }
    assert(s.take(n) =~= name);
    assert(s.skip(n + 1) =~= value);
}

/// An error that a callback reports is shown to the user and refused, whatever code
/// and state come with it.
pub proof fn law_reported_error_refused(
    request: Seq<char>,
    expected_state: Seq<char>,
    query: Seq<char>,
    error: Seq<char>,
)
    requires
        request_query(request) == Some(query),
        parameter(pieces(query, '&'), "error"@) == Some(error),
    ensures
        callback_of(request, expected_state).1 is Err,
        callback_of(request, expected_state).1->Err_0 == "OAuth authorization denied: "@ + error,
        callback_of(request, expected_state).0 is Some,
        holds(callback_of(request, expected_state).0->0, error),
{
    let page = callback_of(request, expected_state).0->0;
    lemma_holds(
        page,
        "HTTP/1.1 200 OK\r\nContent-Type: text/html\r\nConnection: close\r\n\r\n<html><body><h2>Authorization failed: "@,
        error,
        "</h2><p>You can close this tab.</p></body></html>"@,
    );
}

/// A callback that reports no error gives its code exactly where its state is the one
/// that was sent along; one without a code or a state, or with another state, is
/// refused, each for its own reason, and no page is sent back.
pub proof fn law_code_with_the_right_state(
    request: Seq<char>,
    expected_state: Seq<char>,
    query: Seq<char>,
)
    requires
        request_query(request) == Some(query),
        parameter(pieces(query, '&'), "error"@) is None,
    ensures
        ({
            let code = parameter(pieces(query, '&'), "code"@);
            let state = parameter(pieces(query, '&'), "state"@);
            let r = callback_of(request, expected_state);
            &&& code is Some && state == Some(expected_state) ==> r.1 is Ok && r.1->Ok_0 == code->0
                && r.0 is Some
            &&& code is None ==> r.1 is Err && r.1->Err_0 == "no code in callback"@ && r.0 is None
            &&& code is Some && state is None ==> r.1 is Err && r.1->Err_0
                == "no state in callback"@ && r.0 is None
            &&& code is Some && state is Some && state->0 != expected_state ==> r.1 is Err
                && r.1->Err_0 == "OAuth state mismatch"@ && r.0 is None
        }),
{
}

/// A callback without a target is malformed, and one without parameters is refused.
pub proof fn law_callback_without_parameters_refused(
    request: Seq<char>,
    expected_state: Seq<char>,
)
    requires
        request_query(request) is None,
    ensures
        callback_of(request, expected_state).0 is None,
        callback_of(request, expected_state).1 is Err,
        request_target(request) is None ==> callback_of(request, expected_state).1->Err_0
            == "malformed callback request"@,
        request_target(request) is Some ==> callback_of(request, expected_state).1->Err_0
            == "no query params in callback"@,
{
}

/// A client registers under its name, for the local callback, with codes and refresh
/// tokens and without a secret of its own.
pub proof fn law_registration_tells()
    ensures
        registration().get("client_name"@) == Some(JsonView::Str("symposium"@)),
        registration().get("redirect_uris"@) == Some(
            JsonView::Array(seq![JsonView::Str("http://127.0.0.1:19823/callback"@)]),
        ),
        registration().get("grant_types"@) == Some(
            JsonView::Array(
                seq![JsonView::Str("authorization_code"@), JsonView::Str("refresh_token"@)],
            ),
        ),
        registration().get("response_types"@) == Some(
            JsonView::Array(seq![JsonView::Str("code"@)]),
        ),
        registration().get("token_endpoint_auth_method"@) == Some(JsonView::Str("none"@)),
{
    reveal_strlit("client_name");
    reveal_strlit("redirect_uris");
    reveal_strlit("grant_types");
    reveal_strlit("response_types");
    reveal_strlit("token_endpoint_auth_method");
    assert("client_name"@[0] == 'c' && "grant_types"@[0] == 'g');
    assert("client_name"@.len() == 11 && "redirect_uris"@.len() == 13 && "grant_types"@.len() == 11
        && "response_types"@.len() == 14 && "token_endpoint_auth_method"@.len() == 26);
    reveal_with_fuel(crate::json::entry_from, 6);
}

/// In a URL a "+" stands for a space, and a character that is neither "+" nor "%" for
/// itself.
pub proof fn law_decoded_characters(c: char, s: Seq<char>)
    ensures
        decoded(seq!['+'] + s) == seq![' '] + decoded(s),
        c != '+' && c != '%' ==> decoded(seq![c] + s) == seq![c] + decoded(s),
{
    assert((seq!['+'] + s).skip(1) =~= s);
    assert((seq![c] + s).skip(1) =~= s);
}

/// The target of a request is the second word of its first line, and its parameters are
/// what follows the question mark there.
pub proof fn law_target_and_parameters_of_a_request(
    method: Seq<char>,
    path: Seq<char>,
    query: Seq<char>,
    version: Seq<char>,
    more: Seq<char>,
)
    requires
        method.len() > 0,
        path.len() > 0,
        forall|i: int| 0 <= i < method.len() ==> !is_space(#[trigger] method[i]),
        forall|i: int| 0 <= i < path.len() ==> !is_space(#[trigger] path[i]) && path[i] != '?',
        forall|i: int| 0 <= i < query.len() ==> !is_space(#[trigger] query[i]) && query[i] != '?',
        forall|i: int| 0 <= i < version.len() ==> !is_space(#[trigger] version[i]),
    ensures
        ({
            let asked = path + seq!['?'] + query;
            let r = method + seq![' '] + asked + seq![' '] + version + seq!['\r', '\n'] + more;
            &&& request_target(r) == Some(asked)
            &&& request_query(r) == Some(query)
        }),
{
    let asked = path + seq!['?'] + query;
    let line = method + seq![' '] + asked + seq![' '] + version;
    let ended = line + seq!['\r'];
    let r = method + seq![' '] + asked + seq![' '] + version + seq!['\r', '\n'] + more;
    assert(r =~= ended + seq!['\n'] + more);
    assert(!ended.contains('\n')) by {
        if ended.contains('\n') {
            let k = ended.index_of('\n');
            let m = method.len() as int;
            let p = path.len() as int;
            let q = query.len() as int;
            if k < m {
                assert(method[k] == '\n');
            } else if m < k < m + 1 + p {
                assert(path[k - m - 1] == '\n');
            } else if m + 1 + p < k < m + 2 + p + q {
                assert(query[k - m - 2 - p] == '\n');
            } else if m + 2 + p + q < k < m + 3 + p + q + version.len() {
                assert(version[k - m - 3 - p - q] == '\n');
            }
        }
    }
    assert(!line.contains('\n')) by {
        if line.contains('\n') {
            let k = line.index_of('\n');
            assert(ended[k] == '\n');
        }
    }
    law_lines_of_a_text(ended, more);
    law_lines_of_a_text(line, more);
    assert forall|i: int| 0 <= i < asked.len() implies !is_space(#[trigger] asked[i]) by {
        if i < path.len() {
            assert(asked[i] == path[i]);
        } else if i > path.len() {
            assert(asked[i] == query[i - path.len() - 1]);
        }
    }
    let tail = asked + seq![' '] + version;
    assert(line =~= method + seq![' '] + tail);
    law_words_of_a_text(method, ' ', tail);
    law_words_of_a_text(asked, ' ', version);
    assert(words(line) == seq![method] + (seq![asked] + words(version)));
    assert(words(line)[1] == asked);
    assert(!path.contains('?') && !query.contains('?'));
    lemma_pieces_single(path, '?');
    lemma_pieces_single(query, '?');
    lemma_pieces_concat(path, query, '?');
}

} // verus!
