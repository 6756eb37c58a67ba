use vstd::prelude::*;
use vstd::string::StringExecFns;
use vstd::utf8::decode_utf8;
use vstd::utf8::encode_utf8;
use vstd::utf8::valid_utf8;
use crate::query::find_param;
use crate::query::lookup;
use crate::query::lemma_decode_plain;
use crate::query::lemma_span_at;
use crate::query::percent_decode;
use crate::query::segment_name;
use crate::query::segment_value;
use crate::urlencoding::ascii_bytes;
use crate::urlencoding::lemma_decode_encode;
use crate::urlencoding::lemma_encode_bytes;
use crate::urlencoding::lemma_encode_chars;
use vstd::utf8::encode_utf8_decode_utf8;
use vstd::utf8::encode_utf8_valid_utf8;
use vstd::utf8::is_ascii_chars;
use vstd::utf8::is_ascii_chars_encode_utf8;
use crate::urlencoding::encode;
use crate::urlencoding::percent_encode;

verus! {

pub const GOOGLE_AUTH_URL: &'static str = "https://accounts.google.com/o/oauth2/v2/auth";

pub const CLIENT_ID: &'static str = "126932716262-m3jg96nhn9efg7mkee5k9d9aqnu0282l.apps.googleusercontent.com";

/// Where the provider sends the browser back during local development.
pub const DEV_REDIRECT_URI: &'static str = "http://localhost:8080/";

/// Where the provider sends the browser back on the deployed site.
pub const PROD_REDIRECT_URI: &'static str = "https://geeom.github.io/personal_assistant/";

pub const DEV_BACKEND_URL: &'static str = "http://localhost:3000";

pub const PROD_BACKEND_URL: &'static str = "https://personal-assistant-backend.fly.dev";

/// Key under which the pending nonce is kept in browser storage.
pub const STATE_STORAGE_KEY: &'static str = "oauth_state";

/// Body of the code-exchange request.
#[derive(Debug, Clone)]
pub struct AuthRequest {
    pub code: String,
}

/// What the backend returns for a good code.
#[derive(Debug, Clone)]
pub struct AuthResponse {
    pub token: String,
    pub user: UserInfo,
}

#[derive(Debug, Clone)]
pub struct UserInfo {
    pub id: i64,
    pub google_id: String,
    pub email: String,
    pub name: String,
}

/// The session: a bearer token and the profile that came with it.
#[derive(Debug, Clone)]
pub struct AuthState {
    pub token: Option<String>,
    pub user: Option<UserInfo>,
}

impl AuthState {
    pub open spec fn is_empty_session(&self) -> bool {
        self.token is None && self.user is None
    }

    pub fn is_authenticated(&self) -> (r: bool)
        ensures
            r == self.token is Some,
    {
        self.token.is_some()
    }
}

impl Default for AuthState {
    fn default() -> (r: AuthState)
        ensures
            r.is_empty_session(),
    {
        AuthState { token: None, user: None }
    }
}

/// A lowercase hex digit.
pub open spec fn is_lower_hex(c: char) -> bool {
    ('0' <= c && c <= '9') || ('a' <= c && c <= 'f')
}

/// The hyphenated text of a version-4 UUID: groups of 8, 4, 4, 4 and 12 lowercase hex
/// digits, the version digit `4` first in the third group, and `8`, `9`, `a` or `b`
/// first in the fourth.
pub open spec fn is_uuid_v4_text(s: Seq<char>) -> bool {
    &&& s.len() == 36
    &&& forall|i: int|
        0 <= i < 36 ==> if i == 8 || i == 13 || i == 18 || i == 23 {
            #[trigger] s[i] == '-'
        } else {
            is_lower_hex(s[i])
        }
    &&& s[14] == '4'
    &&& (s[19] == '8' || s[19] == '9' || s[19] == 'a' || s[19] == 'b')
}

/// Relies on uuid::Uuid::new_v4 and its `Display`: a random version-4 UUID of the
/// RFC 4122 variant, written hyphenated in lowercase.
#[verifier::external_body]
fn random_uuid_string() -> (r: String)
    ensures
        is_uuid_v4_text(r@),
{
    uuid::Uuid::new_v4().to_string()
}

/// A fresh nonce for one sign-in attempt.
pub fn generate_state() -> (r: String)
    ensures
        is_uuid_v4_text(r@),
{
    random_uuid_string()
}

/// The provider's authorization address for a nonce and a redirect address.
pub open spec fn authorization_url(state: Seq<char>, redirect_uri: Seq<char>) -> Seq<char> {
    GOOGLE_AUTH_URL@ + "?client_id="@ + percent_encode(encode_utf8(CLIENT_ID@))
        + "&redirect_uri="@ + percent_encode(encode_utf8(redirect_uri)) + "&response_type="@
        + percent_encode(encode_utf8("code"@)) + "&scope="@ + percent_encode(
        encode_utf8("openid email profile"@),
    ) + "&state="@ + percent_encode(encode_utf8(state)) + "&access_type="@ + percent_encode(
        encode_utf8("online"@),
    )
}

pub fn build_authorization_url(state: &str, redirect_uri: &str) -> (r: String)
    ensures
        r@ == authorization_url(state@, redirect_uri@),
{
    let mut url = String::from_str(GOOGLE_AUTH_URL);
    url.append("?client_id=");
    url.append(encode(CLIENT_ID).as_str());
    url.append("&redirect_uri=");
    url.append(encode(redirect_uri).as_str());
    url.append("&response_type=");
    url.append(encode("code").as_str());
    url.append("&scope=");
    url.append(encode("openid email profile").as_str());
    url.append("&state=");
    url.append(encode(state).as_str());
    url.append("&access_type=");
    url.append(encode("online").as_str());
    url
}

/// Starts a sign-in: a fresh nonce, and the address to send the browser to.
/// The caller stores the nonce, then navigates.
pub fn initiate_oauth_flow(redirect_uri: &str) -> (r: (String, String))
    ensures
        is_uuid_v4_text(r.0@),
        r.1@ == authorization_url(r.0@, redirect_uri@),
{
    let state = generate_state();
    let url = build_authorization_url(state.as_str(), redirect_uri);
    (state, url)
}

pub open spec fn code_key() -> Seq<u8> {
    seq![99u8, 111, 100, 101]
}

pub open spec fn state_key() -> Seq<u8> {
    seq![115u8, 116, 97, 116, 101]
}

/// The query of a `location.search` value: what follows a leading `?`.
pub open spec fn query_part(search: Seq<u8>) -> Seq<u8> {
    if search.len() > 0 && search[0] == 63 {
        search.drop_first()
    } else {
        search
    }
}

/// The raw `code` and `state` values that a query string carries, if it has both.
pub open spec fn callback_bytes(search: Seq<u8>) -> Option<(Seq<u8>, Seq<u8>)> {
    if search.len() == 0 {
        None
    } else {
        match (lookup(query_part(search), code_key()), lookup(query_part(search), state_key())) {
            (Some(c), Some(s)) => Some((c, s)),
            _ => None,
        }
    }
}

/// What the replacement-character decoding of UTF-8 gives for bytes that are not valid UTF-8.
pub uninterp spec fn lossy_utf8(b: Seq<u8>) -> Seq<char>;

/// The text of a decoded value: its UTF-8 reading, with invalid sequences replaced by
/// U+FFFD.
pub open spec fn utf8_text(b: Seq<u8>) -> Seq<char> {
    if valid_utf8(b) {
        decode_utf8(b)
    } else {
        lossy_utf8(b)
    }
}

/// The `code` and `state` of a callback, when the query carries both.
pub open spec fn callback_params(search: Seq<char>) -> Option<(Seq<char>, Seq<char>)> {
    match callback_bytes(encode_utf8(search)) {
        Some((c, s)) => Some((utf8_text(c), utf8_text(s))),
        None => None,
    }
}

/// `code=<a>&state=<b>` as bytes.
pub open spec fn two_params(a: Seq<u8>, b: Seq<u8>) -> Seq<u8> {
    seq![99u8, 111, 100, 101, 61] + a + seq![38u8, 115, 116, 97, 116, 101, 61] + b
}

proof fn lemma_lookup_code(a: Seq<u8>, b: Seq<u8>)
    requires
        forall|i: int| 0 <= i < a.len() ==> a[i] != 38,
    ensures
        lookup(two_params(a, b), code_key()) == Some(percent_decode(a)),
{
    let q = two_params(a, b);
    let e: int = 5 + a.len() as int;
    lemma_span_at(q, 38, e);
    let seg = q.subrange(0, e);
    assert(seg =~= seq![99u8, 111, 100, 101, 61] + a);
    lemma_span_at(seg, 61, 4);
    assert(seg.subrange(0, 4) =~= code_key());
    lemma_decode_plain(code_key());
    assert(seg.subrange(5, e) =~= a);
}

proof fn lemma_lookup_state(a: Seq<u8>, b: Seq<u8>)
    requires
        forall|i: int| 0 <= i < a.len() ==> a[i] != 38,
        forall|i: int| 0 <= i < b.len() ==> b[i] != 38,
    ensures
        lookup(two_params(a, b), state_key()) == Some(percent_decode(b)),
{
    let q = two_params(a, b);
    let e: int = 5 + a.len() as int;
    lemma_span_at(q, 38, e);
    let seg = q.subrange(0, e);
    assert(seg =~= seq![99u8, 111, 100, 101, 61] + a);
    lemma_span_at(seg, 61, 4);
    assert(seg.subrange(0, 4) =~= code_key());
    lemma_decode_plain(code_key());
    assert(percent_decode(code_key()).len() != state_key().len());
    let q2 = q.subrange(e + 1, q.len() as int);
    assert(q2 =~= seq![115u8, 116, 97, 116, 101, 61] + b);
    lemma_span_at(q2, 38, q2.len() as int);
    let seg2 = q2.subrange(0, q2.len() as int);
    assert(seg2 =~= q2);
    lemma_span_at(seg2, 61, 5);
    assert(seg2.subrange(0, 5) =~= state_key());
    lemma_decode_plain(state_key());
    assert(seg2.subrange(6, seg2.len() as int) =~= b);
    assert(segment_name(seg) == code_key());
    assert(segment_name(seg) != state_key());
    assert(e < q.len());
    assert(lookup(q, state_key()) == lookup(q2, state_key()));
    assert(segment_name(seg2) == state_key());
    assert(segment_value(seg2) == percent_decode(b));
}

/// The query that the provider sends back: `?code=<code>&state=<state>`, both encoded.
pub open spec fn callback_search(code: Seq<char>, state: Seq<char>) -> Seq<char> {
    seq!['?', 'c', 'o', 'd', 'e', '='] + percent_encode(encode_utf8(code)) + seq![
        '&',
        's',
        't',
        'a',
        't',
        'e',
        '=',
    ] + percent_encode(encode_utf8(state))
}

/// Round trip: a callback that echoes the nonce of an authorization address as `state`,
/// with any `code`, is parsed back into exactly that code and that nonce.
pub proof fn lemma_callback_round_trip(code: Seq<char>, state: Seq<char>)
    ensures
        callback_params(callback_search(code, state)) == Some((code, state)),
{
    let cb = encode_utf8(code);
    let sb = encode_utf8(state);
    let ec = percent_encode(cb);
    let es = percent_encode(sb);
    lemma_encode_chars(cb);
    lemma_encode_chars(sb);
    lemma_encode_bytes(cb);
    lemma_encode_bytes(sb);
    lemma_decode_encode(cb);
    lemma_decode_encode(sb);
    let head = seq!['?', 'c', 'o', 'd', 'e', '='];
    let mid = seq!['&', 's', 't', 'a', 't', 'e', '='];
    let search = callback_search(code, state);
    assert(search == head + ec + mid + es);
    assert(is_ascii_chars(search)) by {
        assert forall|i: int| 0 <= i < search.len() implies '\0' <= #[trigger] search[i] <= '\u{7f}' by {
            if i < 6 {
            } else if i < 6 + ec.len() {
                assert(search[i] == ec[i - 6]);
            } else if i < 13 + ec.len() {
            } else {
                assert(search[i] == es[i - 13 - ec.len()]);
            }
        }
    }
    is_ascii_chars_encode_utf8(search);
    let bytes = encode_utf8(search);
    assert(bytes =~= ascii_bytes(search));
    let a = ascii_bytes(ec);
    let b = ascii_bytes(es);
    let q = query_part(bytes);
    assert(q =~= two_params(a, b));
    assert forall|i: int| 0 <= i < a.len() implies a[i] != 38 by {
        assert(ec[i] != '&');
    }
    assert forall|i: int| 0 <= i < b.len() implies b[i] != 38 by {
        assert(es[i] != '&');
    }
    lemma_lookup_code(a, b);
    lemma_lookup_state(a, b);
    encode_utf8_valid_utf8(code);
    encode_utf8_valid_utf8(state);
    encode_utf8_decode_utf8(code);
    encode_utf8_decode_utf8(state);
}

/// Once the query has been stripped from the address, parsing it again finds no callback.
pub proof fn lemma_cleaned_address_has_no_callback()
    ensures
        callback_params(Seq::<char>::empty()) is None,
{
    assert(encode_utf8(Seq::<char>::empty()) =~= Seq::<u8>::empty());
}

/// Relies on String::from_utf8_lossy: valid UTF-8 is read as it is, anything else with
/// U+FFFD in place of each invalid sequence.
#[verifier::external_body]
fn string_from_utf8_lossy(v: &[u8]) -> (r: String)
    ensures
        valid_utf8(v@) ==> r@ == decode_utf8(v@),
        !valid_utf8(v@) ==> r@ == lossy_utf8(v@),
{
    String::from_utf8_lossy(v).into_owned()
}

/// Reads `code` and `state` out of the query part of the current address
/// (`location.search`, with or without its `?`).
pub fn parse_oauth_callback(search: &str) -> (r: Option<(String, String)>)
    ensures
        r matches Some((c, s)) ==> callback_params(search@) == Some((c@, s@)),
        r is None <==> callback_bytes(encode_utf8(search@)) is None,
        search@.len() == 0 ==> r is None,
{
    let bytes = search.as_bytes();
    if bytes.len() == 0 {
        return None;
    }
    let start: usize = if bytes[0] == 63 { 1 } else { 0 };
    proof {
        assert(query_part(bytes@) == bytes@.subrange(start as int, bytes@.len() as int));
    }
    let code_name: Vec<u8> = vec![99u8, 111, 100, 101];
    let state_name: Vec<u8> = vec![115u8, 116, 97, 116, 101];
    proof {
        assert(code_name@ == code_key());
        assert(state_name@ == state_key());
    }
    let code = find_param(bytes, start, code_name.as_slice());
    let state = find_param(bytes, start, state_name.as_slice());
    match (code, state) {
        (Some(c), Some(s)) => Some(
            (string_from_utf8_lossy(c.as_slice()), string_from_utf8_lossy(s.as_slice())),
        ),
        _ => None,
    }
}

} // verus!
