//! Signed bearer tokens: issued at login, checked on every request against
//! the secret of the process, and renewed while they are valid.

use vstd::prelude::*;
use vstd::bytes::spec_u64_to_le_bytes;
use vstd::endian::{endianness, Endian};
use vstd::string::StringExecFns;
use crate::error::ApiError;

verus! {

/// The seconds between the issue of a token and its expiry.
pub const TOKEN_LIFETIME: i64 = 2_000_000;

/// No clock reading lies further from the epoch than this many seconds.
pub const CLOCK_BOUND: i64 = 0x2000_0000_0000;

/// No input longer than this is written as base64 text: the text of a longer
/// one might not fit in memory.
pub const BASE64_INPUT_LIMIT: usize = usize::MAX / 8;

/// The SHA-256 digest of `data`, 32 bytes.
pub uninterp spec fn sha256(data: Seq<u8>) -> Seq<u8>;

/// The text that standard base64 with padding gives for `bytes`.
pub uninterp spec fn base64_text(bytes: Seq<u8>) -> Seq<char>;

/// The bytes that `text` stands for in standard base64 with padding; `None`
/// where it stands for none.
pub uninterp spec fn base64_bytes(text: Seq<char>) -> Option<Seq<u8>>;

/// The bytes that `rmp_serde::to_vec` gives for the four fields of a token.
/// `None` where it fails.
pub uninterp spec fn packed_token(token: TokenView) -> Option<Seq<u8>>;

/// What `rmp_serde::from_slice` reads from `bytes` as the four fields of a
/// token. `None` where it fails.
pub uninterp spec fn unpacked_token(bytes: Seq<u8>) -> Option<TokenView>;

/// The eight bytes of `x` in the byte order of the machine.
pub open spec fn native_bytes(x: u64) -> Seq<u8> {
    match endianness() {
        Endian::Little => spec_u64_to_le_bytes(x),
        Endian::Big => spec_u64_to_le_bytes(x).reverse(),
    }
}

/// What is signed: the secret, then subject, issue time and expiry, each as
/// eight bytes in the byte order of the machine.
pub open spec fn signed_bytes(secret: Seq<u8>, sub: u64, iat: i64, exp: i64) -> Seq<u8> {
    secret + native_bytes(sub) + native_bytes(iat as u64) + native_bytes(exp as u64)
}

/// The signature that `secret` gives to a subject, an issue time and an
/// expiry.
pub open spec fn signature_of(secret: Seq<u8>, sub: u64, iat: i64, exp: i64) -> Seq<u8> {
    sha256(signed_bytes(secret, sub, iat, exp))
}

/// A bearer token: who it stands for, when it was issued, when it expires,
/// and the signature over the three.
#[derive(Clone, Debug, PartialEq, Eq)]
pub struct Token {
    pub sub: u64,
    iat: i64,
    exp: i64,
    sign: [u8; 32],
}

/// The mathematical content of a [`Token`].
#[verifier::ext_equal]
pub struct TokenView {
    pub sub: u64,
    pub iat: i64,
    pub exp: i64,
    pub sign: Seq<u8>,
}

impl View for Token {
    type V = TokenView;

    closed spec fn view(&self) -> TokenView {
        TokenView { sub: self.sub, iat: self.iat, exp: self.exp, sign: self.sign@ }
    }
}

impl TokenView {
    /// Whether the signature is the one that `secret` gives to the fields.
    pub open spec fn signed_by(self, secret: Seq<u8>) -> bool {
        self.sign == signature_of(secret, self.sub, self.iat, self.exp)
    }

    /// Whether the margins before issue and before expiry sum to more than
    /// nothing at `now`.
    pub open spec fn in_window(self, now: i64) -> bool {
        (self.iat - now) + (self.exp - now) > 0
    }

    /// Whether the token holds at `now` under `secret`.
    pub open spec fn valid_at(self, secret: Seq<u8>, now: i64) -> bool {
        self.signed_by(secret) && self.in_window(now)
    }

    /// The token that `secret` issues to `sub` at `now`.
    pub open spec fn issued(secret: Seq<u8>, sub: u64, now: i64) -> TokenView {
        TokenView {
            sub,
            iat: now,
            exp: (now + TOKEN_LIFETIME) as i64,
            sign: signature_of(secret, sub, now, (now + TOKEN_LIFETIME) as i64),
        }
    }

    /// This token signed anew at `now`: same subject, same expiry.
    pub open spec fn reissued(self, secret: Seq<u8>, now: i64) -> TokenView {
        TokenView {
            sub: self.sub,
            iat: now,
            exp: self.exp,
            sign: signature_of(secret, self.sub, now, self.exp),
        }
    }

    /// What renewal at `now` gives: nothing for a token that does not hold,
    /// the token signed anew for one that does.
    pub open spec fn renewed(self, secret: Seq<u8>, now: i64) -> Option<TokenView> {
        if self.valid_at(secret, now) {
            Some(self.reissued(secret, now))
        } else {
            None
        }
    }

    /// The text of the token on the wire, without its scheme: base64 of the
    /// packed fields. `None` where the token cannot be written, or where the
    /// text would not read back as this token.
    pub open spec fn wire_text(self) -> Option<Seq<char>> {
        match packed_token(self) {
            Some(bytes) => if bytes.len() <= BASE64_INPUT_LIMIT && TokenView::parsed(
                base64_text(bytes),
            ) == Some(self) {
                Some(base64_text(bytes))
            } else {
                None
            },
            None => None,
        }
    }

    /// The token that wire text without a scheme stands for, if any.
    pub open spec fn parsed(text: Seq<char>) -> Option<TokenView> {
        match base64_bytes(text) {
            Some(bytes) => unpacked_token(bytes),
            None => None,
        }
    }

    /// The value of the authorization header for this token; `None` where
    /// the token cannot be written.
    pub open spec fn header_text(self) -> Option<Seq<char>> {
        match self.wire_text() {
            Some(text) => Some("Bearer "@ + text),
            None => None,
        }
    }

    /// The token as it is shown: the value of its header, or a placeholder
    /// where it cannot be written.
    pub open spec fn shown(self) -> Seq<char> {
        match self.header_text() {
            Some(v) => v,
            None => "Bearer [invalid]"@,
        }
    }

    /// The token that the value of an authorization header stands for, if
    /// any.
    pub open spec fn parsed_header(value: Seq<char>) -> Option<TokenView> {
        match after_prefix(value, "Bearer "@) {
            Some(text) => TokenView::parsed(text),
            None => None,
        }
    }
}

/// What follows `prefix` in `text`, where `text` starts with it.
pub open spec fn after_prefix(text: Seq<char>, prefix: Seq<char>) -> Option<Seq<char>> {
    if prefix.len() <= text.len() && text.subrange(0, prefix.len() as int) == prefix {
        Some(text.subrange(prefix.len() as int, text.len() as int))
    } else {
        None
    }
}

/// Calls `u64::to_ne_bytes`: the bytes of `x` as the machine holds them,
/// lowest first on a little-endian machine and highest first on a big-endian
/// one.
#[verifier::external_body]
fn native_order(x: u64) -> (bytes: [u8; 8])
    ensures
        bytes@ == native_bytes(x),
{
    x.to_ne_bytes()
}

/// Calls `Sha256::digest` of `sha2`. Nothing is claimed of the digest but
/// that it depends on `data` alone.
#[verifier::external_body]
fn digest(data: &Vec<u8>) -> (hash: [u8; 32])
    ensures
        hash@ == sha256(data@),
{
    <sha2::Sha256 as sha2::Digest>::digest(data).into()
}

/// Calls `UtcDateTime::now` and `unix_timestamp` of `time`. The crate holds
/// no date beyond the years -999,999 and 999,999, so the seconds stay within
/// [`CLOCK_BOUND`]; nothing else is known of a clock. On a machine whose
/// clock lies outside those years, `now` panics.
#[verifier::external_body]
fn clock() -> (now: i64)
    ensures
        -CLOCK_BOUND <= now <= CLOCK_BOUND,
{
    time::UtcDateTime::now().unix_timestamp()
}

/// Calls `Engine::encode` of `base64` on its standard engine, which panics
/// where the length of the text does not fit a `usize`, and allocates the
/// text at once: inputs over [`BASE64_INPUT_LIMIT`] are kept out. Nothing is
/// claimed of the text but that it depends on `bytes` alone.
#[verifier::external_body]
fn to_base64(bytes: &Vec<u8>) -> (text: String)
    requires
        bytes@.len() <= BASE64_INPUT_LIMIT,
    ensures
        text@ == base64_text(bytes@),
{
    base64::Engine::encode(&base64::engine::general_purpose::STANDARD, bytes)
}

/// Calls `Engine::decode` of `base64` on its standard engine. Nothing is
/// claimed of the bytes but that they depend on `text` alone.
#[verifier::external_body]
fn from_base64(text: &str) -> (bytes: Option<Vec<u8>>)
    ensures
        match bytes {
            Some(b) => base64_bytes(text@) == Some(b@),
            None => base64_bytes(text@) is None,
        },
{
    base64::Engine::decode(&base64::engine::general_purpose::STANDARD, text).ok()
}

/// Calls `rmp_serde::to_vec` on the four fields of `token` in their order.
/// Nothing is claimed of the bytes but that they depend on `token` alone.
#[verifier::external_body]
fn pack_token(token: &Token) -> (bytes: Option<Vec<u8>>)
    ensures
        match bytes {
            Some(b) => packed_token(token@) == Some(b@),
            None => packed_token(token@) is None,
        },
{
    rmp_serde::to_vec(&(token.sub, token.iat, token.exp, token.sign)).ok()
}

/// Calls `rmp_serde::from_slice` for the four fields of a token. Nothing is
/// claimed of the token but that it depends on `bytes` alone.
#[verifier::external_body]
fn unpack_token(bytes: &[u8]) -> (token: Option<Token>)
    ensures
        match token {
            Some(t) => unpacked_token(bytes@) == Some(t@),
            None => unpacked_token(bytes@) is None,
        },
{
    let (sub, iat, exp, sign) = rmp_serde::from_slice::<(u64, i64, i64, [u8; 32])>(bytes).ok()?;
    Some(Token { sub, iat, exp, sign })
}

/// Calls `str::strip_prefix`: what follows `prefix` where `text` starts with
/// it, nothing where it does not.
#[verifier::external_body]
fn strip_prefix<'a>(text: &'a str, prefix: &str) -> (rest: Option<&'a str>)
    ensures
        match rest {
            Some(r) => after_prefix(text@, prefix@) == Some(r@),
            None => after_prefix(text@, prefix@) is None,
        },
{
    text.strip_prefix(prefix)
}

/// Puts `bytes` at the end of `buffer`.
fn append_bytes(buffer: &mut Vec<u8>, bytes: &[u8])
    ensures
        final(buffer)@ == old(buffer)@ + bytes@,
{
    buffer.extend_from_slice(bytes);
    assert(buffer@ =~= old(buffer)@ + bytes@);
}

/// Whether two signatures are the same, byte for byte.
fn same_signature(left: &[u8; 32], right: &[u8; 32]) -> (same: bool)
    ensures
        same == (left@ == right@),
{
    let mut i: usize = 0;
    while i < 32
        invariant
            i <= 32,
            forall|j: int| 0 <= j < i ==> left@[j] == right@[j],
        decreases 32 - i,
    {
        if left[i] != right[i] {
            return false;
        }
        i += 1;
    }
    assert(left@ =~= right@);
    true
}

impl Token {
    /// The signature that `secret_key` gives to a subject, an issue time and
    /// an expiry.
    pub fn signature(secret_key: &[u8; 32], sub: u64, iat: i64, exp: i64) -> (sign: [u8; 32])
        ensures
            sign@ == signature_of(secret_key@, sub, iat, exp),
    {
        let mut data: Vec<u8> = Vec::new();
        append_bytes(&mut data, secret_key.as_slice());
        append_bytes(&mut data, native_order(sub).as_slice());
        append_bytes(&mut data, native_order(iat as u64).as_slice());
        append_bytes(&mut data, native_order(exp as u64).as_slice());
        assert(data@ =~= signed_bytes(secret_key@, sub, iat, exp));
        digest(&data)
    }

    /// The token that `secret_key` issues to `sub` at `now`.
    pub fn issue_at(secret_key: &[u8; 32], sub: u64, now: i64) -> (token: Token)
        requires
            now + TOKEN_LIFETIME <= i64::MAX,
        ensures
            token@ == TokenView::issued(secret_key@, sub, now),
    {
        let exp = now + TOKEN_LIFETIME;
        Token { sign: Token::signature(secret_key, sub, now, exp), sub, iat: now, exp }
    }

    /// A token for `sub`, issued by `secret_key` at the time of the call.
    pub fn new(secret_key: &[u8; 32], sub: u64) -> (token: Token)
        ensures
            token@ == TokenView::issued(secret_key@, sub, token@.iat),
            token@.valid_at(secret_key@, token@.iat),
            -CLOCK_BOUND <= token@.iat <= CLOCK_BOUND,
    {
        let now = clock();
        Token::issue_at(secret_key, sub, now)
    }

    /// Whether the token holds at `now` under `secret_key`.
    pub fn is_valid_at(&self, secret_key: &[u8; 32], now: i64) -> (valid: bool)
        ensures
            valid == self@.valid_at(secret_key@, now),
    {
        let expected = Token::signature(secret_key, self.sub, self.iat, self.exp);
        if !same_signature(&self.sign, &expected) {
            return false;
        }
        let margin: i128 = (self.iat as i128 - now as i128) + (self.exp as i128 - now as i128);
        margin > 0
    }

    /// Whether the token holds under `secret_key` at the time of the call.
    pub fn is_valid(&self, secret_key: &[u8; 32]) -> (valid: bool)
        ensures
            valid ==> self@.signed_by(secret_key@),
            exists|now: i64|
                -CLOCK_BOUND <= now <= CLOCK_BOUND && valid == #[trigger] self@.valid_at(
                    secret_key@,
                    now,
                ),
    {
        let now = clock();
        self.is_valid_at(secret_key, now)
    }

    /// Renewal at `now`: nothing for a token that does not hold, and for one
    /// that does the same subject and expiry, issued and signed anew.
    pub fn update_at(self, secret_key: &[u8; 32], now: i64) -> (token: Option<Token>)
        ensures
            match token {
                Some(t) => self@.renewed(secret_key@, now) == Some(t@),
                None => self@.renewed(secret_key@, now) is None,
            },
    {
        if !self.is_valid_at(secret_key, now) {
            return None;
        }
        Some(
            Token {
                sign: Token::signature(secret_key, self.sub, now, self.exp),
                sub: self.sub,
                iat: now,
                exp: self.exp,
            },
        )
    }

    /// Renewal at the time of the call.
    pub fn update(self, secret_key: &[u8; 32]) -> (token: Option<Token>)
        ensures
            !self@.signed_by(secret_key@) ==> token is None,
            match token {
                Some(t) => {
                    &&& self@.renewed(secret_key@, t@.iat) == Some(t@)
                    &&& -CLOCK_BOUND <= t@.iat <= CLOCK_BOUND
                },
                None => exists|now: i64|
                    -CLOCK_BOUND <= now <= CLOCK_BOUND && (#[trigger] self@.renewed(
                        secret_key@,
                        now,
                    )) is None,
            },
    {
        let now = clock();
        self.update_at(secret_key, now)
    }

    /// Whom the token stands for.
    pub fn subject(&self) -> (sub: u64)
        ensures
            sub == self@.sub,
    {
        self.sub
    }

    /// The time the token was issued at, in seconds since the epoch.
    pub fn issued_at(&self) -> (iat: i64)
        ensures
            iat == self@.iat,
    {
        self.iat
    }

    /// The nominal expiry of the token, in seconds since the epoch.
    pub fn expires_at(&self) -> (exp: i64)
        ensures
            exp == self@.exp,
    {
        self.exp
    }

    /// The token as wire text without its scheme.
    pub fn encode(&self) -> (text: Option<String>)
        ensures
            match text {
                Some(t) => self@.wire_text() == Some(t@),
                None => self@.wire_text() is None,
            },
    {
        let bytes = pack_token(self)?;
        if bytes.len() > BASE64_INPUT_LIMIT {
            return None;
        }
        let text = to_base64(&bytes);
        match Token::decode(text.as_str()) {
            Some(back) => if self.same_as(&back) {
                Some(text)
            } else {
                None
            },
            None => None,
        }
    }

    /// Whether two tokens hold the same four fields.
    pub fn same_as(&self, other: &Token) -> (same: bool)
        ensures
            same == (self@ == other@),
    {
        self.sub == other.sub && self.iat == other.iat && self.exp == other.exp && same_signature(
            &self.sign,
            &other.sign,
        )
    }

    /// The token that wire text without a scheme stands for. Text that is no
    /// base64 and bytes that are no token end the same way.
    pub fn decode(text: &str) -> (token: Option<Token>)
        ensures
            match token {
                Some(t) => TokenView::parsed(text@) == Some(t@),
                None => TokenView::parsed(text@) is None,
            },
    {
        match from_base64(text) {
            Some(bytes) => unpack_token(bytes.as_slice()),
            None => None,
        }
    }

    /// The value of the authorization header that carries this token.
    pub fn to_header(&self) -> (value: Option<String>)
        ensures
            match value {
                Some(v) => self@.header_text() == Some(v@),
                None => self@.header_text() is None,
            },
    {
        match self.encode() {
            Some(text) => Some(String::from_str("Bearer ").concat(text.as_str())),
            None => None,
        }
    }

    /// The token as it is shown: the header value, or a placeholder where
    /// the token cannot be written.
    pub fn to_text(&self) -> (text: String)
        ensures
            text@ == self@.shown(),
    {
        match self.to_header() {
            Some(value) => value,
            None => String::from_str("Bearer [invalid]"),
        }
    }

    /// The token that the value of an authorization header carries.
    pub fn from_header(value: &str) -> (token: Option<Token>)
        ensures
            match token {
                Some(t) => TokenView::parsed_header(value@) == Some(t@),
                None => TokenView::parsed_header(value@) is None,
            },
    {
        match strip_prefix(value, "Bearer ") {
            Some(text) => Token::decode(text),
            None => None,
        }
    }
}

/// A token that is written reads back as itself, from its wire text and
/// from the header that carries it.
pub proof fn lemma_wire_round_trip(token: TokenView)
    requires
        token.wire_text() is Some,
    ensures
        TokenView::parsed(token.wire_text().unwrap()) == Some(token),
        token.header_text() is Some,
        TokenView::parsed_header(token.header_text().unwrap()) == Some(token),
{
    let text = token.wire_text().unwrap();
    let header = "Bearer "@ + text;
    assert(header.subrange(0, "Bearer "@.len() as int) =~= "Bearer "@);
    assert(header.subrange("Bearer "@.len() as int, header.len() as int) =~= text);
}

/// A token that was issued and sent in a header is the token of the request
/// that brings the header back within the window: the same subject and
/// expiry, issued anew.
pub proof fn lemma_issued_token_resolves(secret: Seq<u8>, sub: u64, t0: i64, t: i64)
    requires
        t0 + TOKEN_LIFETIME <= i64::MAX,
        TokenView::issued(secret, sub, t0).wire_text() is Some,
        2 * t < 2 * t0 + TOKEN_LIFETIME,
    ensures
        resolved(TokenView::issued(secret, sub, t0).header_text(), secret, t) == Some(
            TokenView::issued(secret, sub, t0).reissued(secret, t),
        ),
        subject(resolved(TokenView::issued(secret, sub, t0).header_text(), secret, t)) == Some(sub),
{
    lemma_wire_round_trip(TokenView::issued(secret, sub, t0));
}

/// A token holds under two secrets only where both give its fields the same
/// signature: after a change of secret a token is invalid unless the digests
/// of two different inputs collide.
pub proof fn lemma_secret_change(
    token: TokenView,
    old_secret: Seq<u8>,
    new_secret: Seq<u8>,
    now: i64,
)
    requires
        token.valid_at(old_secret, now),
        sha256(signed_bytes(new_secret, token.sub, token.iat, token.exp)) != sha256(
            signed_bytes(old_secret, token.sub, token.iat, token.exp),
        ),
    ensures
        !token.valid_at(new_secret, now),
        token.renewed(new_secret, now) is None,
{
}

/// A token issued at `t0` holds at `t` exactly while twice `t` stays under
/// the sum of issue time and expiry, that is for the first half of its
/// lifetime, the instant of issue included.
pub proof fn lemma_validity_window(secret: Seq<u8>, sub: u64, t0: i64, t: i64)
    requires
        t0 + TOKEN_LIFETIME <= i64::MAX,
    ensures
        TokenView::issued(secret, sub, t0).valid_at(secret, t0),
        TokenView::issued(secret, sub, t0).valid_at(secret, t) <==> 2 * t < 2 * t0
            + TOKEN_LIFETIME,
{
}

/// Renewal gives nothing for a token that does not hold, and for one that
/// does a token of the same subject and expiry, issued at the time of
/// renewal and signed by the same secret.
pub proof fn lemma_renewal(token: TokenView, secret: Seq<u8>, now: i64)
    ensures
        !token.valid_at(secret, now) ==> token.renewed(secret, now) is None,
        token.valid_at(secret, now) ==> {
            &&& token.renewed(secret, now) is Some
            &&& token.renewed(secret, now).unwrap().sub == token.sub
            &&& token.renewed(secret, now).unwrap().exp == token.exp
            &&& token.renewed(secret, now).unwrap().iat == now
            &&& token.renewed(secret, now).unwrap().signed_by(secret)
        },
{
}

/// The token of a request, if it carried a valid one.
pub struct OptionalToken(Option<Token>);

impl View for OptionalToken {
    type V = Option<TokenView>;

    closed spec fn view(&self) -> Option<TokenView> {
        match self.0 {
            Some(t) => Some(t@),
            None => None,
        }
    }
}

/// The subject of an optional token.
pub open spec fn subject(token: Option<TokenView>) -> Option<u64> {
    match token {
        Some(t) => Some(t.sub),
        None => None,
    }
}

/// The token that a request is served under at `now`: the one its
/// authorization header carries, renewed; none where there is no header,
/// where the header carries no token, or where the token does not hold.
pub open spec fn resolved(header: Option<Seq<char>>, secret: Seq<u8>, now: i64) -> Option<
    TokenView,
> {
    match header {
        Some(value) => match TokenView::parsed_header(value) {
            Some(token) => token.renewed(secret, now),
            None => None,
        },
        None => None,
    }
}

/// The authorization header to add to a response: that of the token the
/// request was served under, unless the response has one already.
pub open spec fn refreshed_header(token: Option<TokenView>, already_set: bool) -> Option<
    Seq<char>,
> {
    match token {
        Some(t) => if already_set {
            None
        } else {
            t.header_text()
        },
        None => None,
    }
}

/// The text of an optional header value.
pub open spec fn text_of(value: Option<&str>) -> Option<Seq<char>> {
    match value {
        Some(v) => Some(v@),
        None => None,
    }
}

impl OptionalToken {
    /// The token of a request with authorization header `header`, at `now`.
    pub fn resolve_at(header: Option<&str>, secret_key: &[u8; 32], now: i64) -> (token:
        OptionalToken)
        ensures
            token@ == resolved(text_of(header), secret_key@, now),
    {
        let found = match header {
            Some(value) => match Token::from_header(value) {
                Some(token) => token.update_at(secret_key, now),
                None => None,
            },
            None => None,
        };
        OptionalToken(found)
    }

    /// The token of a request with authorization header `header`, at the
    /// time of the call.
    pub fn resolve(header: Option<&str>, secret_key: &[u8; 32]) -> (token: OptionalToken)
        ensures
            match token@ {
                Some(t) => {
                    &&& resolved(text_of(header), secret_key@, t.iat) == Some(t)
                    &&& -CLOCK_BOUND <= t.iat <= CLOCK_BOUND
                },
                None => exists|now: i64|
                    -CLOCK_BOUND <= now <= CLOCK_BOUND && (#[trigger] resolved(
                        text_of(header),
                        secret_key@,
                        now,
                    )) is None,
            },
    {
        let now = clock();
        OptionalToken::resolve_at(header, secret_key, now)
    }

    /// The subject of the request, which is required.
    pub fn auth(&self) -> (r: Result<u64, ApiError>)
        ensures
            r == match subject(self@) {
                Some(sub) => Ok::<u64, ApiError>(sub),
                None => Err::<u64, ApiError>(ApiError::LoginRequired),
            },
    {
        match self.get_sub() {
            Some(sub) => Ok(sub),
            None => Err(ApiError::LoginRequired),
        }
    }

    /// The subject of the request, if it has one.
    pub fn get_sub(&self) -> (sub: Option<u64>)
        ensures
            sub == subject(self@),
    {
        match &self.0 {
            Some(token) => Some(token.sub),
            None => None,
        }
    }

    /// The token of the request, if it has one.
    pub fn as_ref(&self) -> (token: Option<&Token>)
        ensures
            match token {
                Some(t) => self@ == Some(t@),
                None => self@ is None,
            },
    {
        self.0.as_ref()
    }

    /// The authorization header to add to the response of the request.
    pub fn response_header(&self, already_set: bool) -> (value: Option<String>)
        ensures
            match value {
                Some(v) => refreshed_header(self@, already_set) == Some(v@),
                None => refreshed_header(self@, already_set) is None,
            },
    {
        match &self.0 {
            Some(token) => if already_set {
                None
            } else {
                token.to_header()
            },
            None => None,
        }
    }
}

} // verus!
