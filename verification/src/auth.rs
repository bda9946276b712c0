use vstd::prelude::*;

use crate::digest::{md5_bytes, md5_digest, uuid_hyphenated, uuid_text};
use crate::error::{AppError, AppResult, is_message};
use crate::text::{
    chars_of, concat2, concat3, copy_opt, copy_str, is_ws, is_ws_char, str_eq, string_of, trim, trim_spec,
};

verus! {

// ---------------------------------------------------------------------------
// Sessions
// ---------------------------------------------------------------------------

/// A signed-in player: a Microsoft account, or an offline name.
#[derive(Debug, Clone)]
pub struct AuthSession {
    pub access_token: String,
    pub refresh_token: Option<String>,
    pub uuid: String,
    pub username: String,
    pub xuid: Option<String>,
    pub offline: bool,
}

/// What the interface shows of a session.
#[derive(Debug, Clone)]
pub struct AccountInfo {
    pub uuid: String,
    pub username: String,
    pub offline: bool,
}

/// The account that `session` signs in.
pub fn account_info(session: &AuthSession) -> (info: AccountInfo)
    ensures
        info.uuid@ == session.uuid@,
        info.username@ == session.username@,
        info.offline == session.offline,
{
    AccountInfo {
        uuid: session.uuid.clone(),
        username: session.username.clone(),
        offline: session.offline,
    }
}

/// Microsoft's tokens after sign-in or refresh.
#[derive(Debug, Clone)]
pub struct TokenResponse {
    pub access_token: String,
    pub refresh_token: Option<String>,
}

/// The code the player types into Microsoft's device login page.
#[derive(Debug, Clone)]
pub struct LoginCodePayload {
    pub user_code: String,
    pub verification_uri: String,
    pub message: String,
}

// ---------------------------------------------------------------------------
// Offline accounts
// ---------------------------------------------------------------------------

/// The bytes of the offline UUID of `name`: the MD5 of
/// `"OfflinePlayer:" + name`, marked as a version-3 UUID of the IETF
/// variant.
pub open spec fn offline_uuid_bytes(name: Seq<char>) -> Seq<u8> {
    let d = md5_digest(vstd::utf8::encode_utf8("OfflinePlayer:"@ + name));
    d.update(6, (d[6] & 0x0f) | 0x30).update(8, (d[8] & 0x3f) | 0x80)
}

/// Mojang-compatible offline UUID (Java
/// `UUID.nameUUIDFromBytes("OfflinePlayer:" + name)`), hyphenated.
///
/// Law: the bytes are those of a version-3 UUID of the IETF variant.
pub fn offline_uuid(username: &str) -> (r: String)
    ensures
        r@ == uuid_text(offline_uuid_bytes(username@)),
        offline_uuid_bytes(username@).len() == 16,
        offline_uuid_bytes(username@)[6] >> 4 == 3,
        offline_uuid_bytes(username@)[8] >> 6 == 2,
{
    let s = concat2("OfflinePlayer:", username);
    let d = md5_bytes(s.as_str().as_bytes());
    let ghost dv = d@;
    let mut b = d;
    let d6 = b[6];
    let d8 = b[8];
    let b6 = (d6 & 0x0f) | 0x30;
    b.set(6, b6);
    let b8 = (d8 & 0x3f) | 0x80;
    b.set(8, b8);
    assert(b6 >> 4 == 3) by (bit_vector)
        requires
            b6 == (d6 & 0x0f) | 0x30,
    ;
    assert(b8 >> 6 == 2) by (bit_vector)
        requires
            b8 == (d8 & 0x3f) | 0x80,
    ;
    assert(b@ =~= offline_uuid_bytes(username@));
    uuid_hyphenated(b.as_slice())
}


/// What `validate_username` accepts: the trimmed name, 1 to 16 bytes of
/// UTF-8, with no whitespace and no NUL inside.
pub open spec fn username_spec(username: Seq<char>) -> Result<Seq<char>, Seq<char>> {
    let t = trim_spec(username);
    if t.len() == 0 || vstd::utf8::encode_utf8(t).len() > 16 {
        Err("Username must be 1–16 characters"@)
    } else if exists|i: int| 0 <= i < t.len() && (is_ws(#[trigger] t[i]) || t[i] == '\0') {
        Err("Username cannot contain spaces"@)
    } else {
        Ok(t)
    }
}

/// The offline user name that `username` gives, or why it is refused.
pub fn validate_username(username: &str) -> (r: AppResult<String>)
    ensures
        match username_spec(username@) {
            Ok(t) => r matches Ok(n) && n@ == t,
            Err(m) => r matches Err(e) && is_message(e, m),
        },
{
    let name = trim(username);
    if name.as_str().is_empty() || name.as_str().as_bytes().len() > 16 {
        return Err(AppError::msg("Username must be 1–16 characters"));
    }
    let v = chars_of(name.as_str());
    let mut i: usize = 0;
    while i < v.len()
        invariant
            i <= v@.len(),
            v@ == name@,
            name@ == trim_spec(username@),
            name@.len() > 0,
            vstd::utf8::encode_utf8(name@).len() <= 16,
            forall|k: int| 0 <= k < i ==> !(is_ws(#[trigger] v@[k]) || v@[k] == '\0'),
        decreases v.len() - i,
    {
        if is_ws_char(v[i]) || v[i] == '\0' {
            assert(is_ws(v@[i as int]) || v@[i as int] == '\0');
            return Err(AppError::msg("Username cannot contain spaces"));
        }
        i += 1;
    }
    Ok(name)
}

/// The session of an offline player named `username`.
pub fn offline_session(username: &str) -> (r: AppResult<AuthSession>)
    ensures
        match username_spec(username@) {
            Ok(t) => r matches Ok(s) && s.username@ == t && s.uuid@ == uuid_text(
                offline_uuid_bytes(t),
            ) && s.access_token@ == "0"@ && s.refresh_token is None && s.xuid is None
                && s.offline,
            Err(m) => r matches Err(e) && is_message(e, m),
        },
{
    let name = validate_username(username)?;
    let uuid = offline_uuid(name.as_str());
    Ok(
        AuthSession {
            access_token: copy_str("0"),
            refresh_token: None,
            uuid,
            username: name,
            xuid: None,
            offline: true,
        },
    )
}

/// A stored offline session as it is restored: marked offline, and with the
/// placeholder token `"0"` when its token is empty.
pub fn normalize_offline_session(session: AuthSession) -> (r: AuthSession)
    ensures
        r.offline,
        r.access_token@ == (if session.access_token@.len() == 0 {
            "0"@
        } else {
            session.access_token@
        }),
        r.refresh_token == session.refresh_token,
        r.uuid == session.uuid,
        r.username == session.username,
        r.xuid == session.xuid,
{
    let mut s = session;
    s.offline = true;
    if s.access_token.as_str().is_empty() {
        s.access_token = copy_str("0");
    }
    s
}

// ---------------------------------------------------------------------------
// Microsoft sign-in
// ---------------------------------------------------------------------------

/// The configured client ID, trimmed; `MissingClientId` when it is blank.
pub fn require_client_id(client_id: &str) -> (r: AppResult<String>)
    ensures
        trim_spec(client_id@).len() == 0 ==> r matches Err(AppError::MissingClientId),
        trim_spec(client_id@).len() > 0 ==> (r matches Ok(id) && id@ == trim_spec(client_id@)),
{
    let id = trim(client_id);
    if id.as_str().is_empty() {
        return Err(AppError::MissingClientId);
    }
    Ok(id)
}

/// The fields of a token endpoint's JSON reply.
#[derive(Debug, Clone)]
pub struct OAuthTokenJson {
    pub access_token: Option<String>,
    pub refresh_token: Option<String>,
    pub error: Option<String>,
    pub error_description: Option<String>,
}

/// `error + ": " + description`, an absent description being empty.
pub open spec fn oauth_error_text(error: Seq<char>, description: Option<String>) -> Seq<char> {
    error + ": "@ + match description {
        Some(d) => d@,
        None => Seq::<char>::empty(),
    }
}

fn oauth_error(error: &str, description: &Option<String>) -> (e: AppError)
    ensures
        e matches AppError::OAuth(m) && m@ == oauth_error_text(error@, *description),
{
    let mut m = concat2(error, ": ");
    if let Some(d) = description {
        m.append(d.as_str());
    }
    AppError::OAuth(m)
}

/// The tokens of a reply that carries no error.
fn tokens_of(parsed: OAuthTokenJson) -> (r: AppResult<TokenResponse>)
    ensures
        match parsed.access_token {
            Some(a) => r matches Ok(t) && t.access_token == a && t.refresh_token
                == parsed.refresh_token,
            None => r matches Err(AppError::OAuth(m)) && m@
                == "Token response missing access_token"@,
        },
{
    match parsed.access_token {
        Some(a) => Ok(TokenResponse { access_token: a, refresh_token: parsed.refresh_token }),
        None => Err(AppError::OAuth(copy_str("Token response missing access_token"))),
    }
}

/// The outcome of a token request (a refresh): its error, if it reports
/// one, else its tokens.
pub fn token_from_json(parsed: OAuthTokenJson) -> (r: AppResult<TokenResponse>)
    ensures
        match parsed.error {
            Some(err) => r matches Err(AppError::OAuth(m)) && m@ == oauth_error_text(
                err@,
                parsed.error_description,
            ),
            None => match parsed.access_token {
                Some(a) => r matches Ok(t) && t.access_token == a && t.refresh_token
                    == parsed.refresh_token,
                None => r matches Err(AppError::OAuth(m)) && m@
                    == "Token response missing access_token"@,
            },
        },
{
    if let Some(err) = &parsed.error {
        return Err(oauth_error(err.as_str(), &parsed.error_description));
    }
    tokens_of(parsed)
}

/// What to do after one poll of the device-code token endpoint.
#[derive(Debug)]
pub enum PollOutcome {
    /// Sign-in is not finished: wait this many seconds and poll again.
    Wait(u64),
    /// Sign-in finished or failed.
    Finished(AppResult<TokenResponse>),
}

/// The first wait between polls: the server's interval (5 s when it gives
/// none), at least 1 s.
pub fn initial_poll_interval(interval: Option<u64>) -> (r: u64)
    ensures
        r == match interval {
            Some(i) => if i < 1 {
                1
            } else {
                i
            },
            None => 5,
        },
{
    let i = match interval {
        Some(i) => i,
        None => 5,
    };
    if i < 1 {
        1
    } else {
        i
    }
}

/// The decision after one poll, `interval` being the current wait:
/// `authorization_pending` waits as long again, `slow_down` waits 5 s
/// longer, `expired_token` and `access_denied` end with their own message,
/// any other error ends with its text; no error ends with the tokens.
pub fn poll_decision(interval: u64, parsed: OAuthTokenJson) -> (r: PollOutcome)
    requires
        (parsed.error matches Some(e) && e@ == "slow_down"@) ==> interval <= u64::MAX - 5,
    ensures
        match parsed.error {
            Some(err) => if err@ == "authorization_pending"@ {
                r matches PollOutcome::Wait(w) && w == interval
            } else if err@ == "slow_down"@ {
                r matches PollOutcome::Wait(w) && w == interval + 5
            } else if err@ == "expired_token"@ {
                r matches PollOutcome::Finished(Err(AppError::OAuth(m))) && m@
                    == "Microsoft sign-in code expired. Try again."@
            } else if err@ == "access_denied"@ {
                r matches PollOutcome::Finished(Err(AppError::OAuth(m))) && m@
                    == "Microsoft sign-in was cancelled."@
            } else {
                r matches PollOutcome::Finished(Err(AppError::OAuth(m))) && m@ == oauth_error_text(
                    err@,
                    parsed.error_description,
                )
            },
            None => match parsed.access_token {
                Some(a) => r matches PollOutcome::Finished(Ok(t)) && t.access_token == a
                    && t.refresh_token == parsed.refresh_token,
                None => r matches PollOutcome::Finished(Err(AppError::OAuth(m))) && m@
                    == "Token response missing access_token"@,
            },
        },
{
    if let Some(err) = &parsed.error {
        let e = err.as_str();
        if str_eq(e, "authorization_pending") {
            return PollOutcome::Wait(interval);
        } else if str_eq(e, "slow_down") {
            return PollOutcome::Wait(interval + 5);
        } else if str_eq(e, "expired_token") {
            return PollOutcome::Finished(
                Err(AppError::OAuth(copy_str("Microsoft sign-in code expired. Try again."))),
            );
        } else if str_eq(e, "access_denied") {
            return PollOutcome::Finished(
                Err(AppError::OAuth(copy_str("Microsoft sign-in was cancelled."))),
            );
        } else {
            return PollOutcome::Finished(Err(oauth_error(e, &parsed.error_description)));
        }
    }
    PollOutcome::Finished(tokens_of(parsed))
}

/// The error a device-code reply reports, if any.
pub fn device_code_error(error: &Option<String>, description: &Option<String>) -> (r: Option<
    AppError,
>)
    ensures
        match error {
            Some(err) => r matches Some(AppError::OAuth(m)) && m@ == oauth_error_text(
                err@,
                *description,
            ),
            None => r is None,
        },
{
    match error {
        Some(err) => Some(oauth_error(err.as_str(), description)),
        None => None,
    }
}

/// What the login page asks of the player: the server's message, or one
/// made from the page and the code.
pub fn login_code_payload(
    user_code: &str,
    verification_uri: &str,
    message: &Option<String>,
) -> (p: LoginCodePayload)
    ensures
        p.user_code@ == user_code@,
        p.verification_uri@ == verification_uri@,
        p.message@ == match message {
            Some(m) => m@,
            None => "Open "@ + verification_uri@ + " and enter code "@ + user_code@,
        },
{
    let m = match message {
        Some(m) => m.clone(),
        None => {
            let mut s = concat3("Open ", verification_uri, " and enter code ");
            s.append(user_code);
            s
        },
    };
    LoginCodePayload {
        user_code: copy_str(user_code),
        verification_uri: copy_str(verification_uri),
        message: m,
    }
}

// ---------------------------------------------------------------------------
// Xbox Live and Minecraft services
// ---------------------------------------------------------------------------

/// The RPS ticket that carries a Microsoft access token to Xbox Live.
pub fn rps_ticket(msa_access_token: &str) -> (r: String)
    ensures
        r@ == "d="@ + msa_access_token@,
{
    concat2("d=", msa_access_token)
}

/// The identity token that signs in to Minecraft services.
pub fn xbl_identity_token(uhs: &str, xsts_token: &str) -> (r: String)
    ensures
        r@ == "XBL3.0 x="@ + uhs@ + ";"@ + xsts_token@,
{
    let mut r = concat3("XBL3.0 x=", uhs, ";");
    r.append(xsts_token);
    r
}

/// The user hash of an XSTS reply: that of its first user.
pub fn first_user_hash(user_hashes: &Vec<String>) -> (r: AppResult<String>)
    ensures
        user_hashes@.len() > 0 ==> (r matches Ok(h) && h@ == user_hashes@[0]@),
        user_hashes@.len() == 0 ==> (r matches Err(AppError::Auth(m)) && m@
            == "Xbox XSTS response missing user hash"@),
{
    if user_hashes.len() == 0 {
        return Err(AppError::Auth(copy_str("Xbox XSTS response missing user hash")));
    }
    Ok(user_hashes[0].clone())
}

/// The error of a failed call to an authentication service:
/// `"{what} failed ({status}): {body}"`.
pub fn service_failure(what: &str, status: &str, body: &str) -> (e: AppError)
    ensures
        e matches AppError::Auth(m) && m@ == what@ + " failed ("@ + status@ + "): "@ + body@,
{
    let mut m = concat3(what, " failed (", status);
    m.append("): ");
    m.append(body);
    AppError::Auth(m)
}

/// How a reply's HTTP status is handled.
#[derive(Debug, Clone, Copy, PartialEq, Eq, Structural)]
pub enum StatusVerdict {
    /// Read the reply.
    Proceed,
    /// The account does not own the game.
    NotOwned,
    /// The call failed.
    Failed,
}

pub open spec fn is_success(code: u16) -> bool {
    200 <= code <= 299
}

/// The entitlements call: 401 and 404 mean the game is not owned.
pub fn entitlements_status(code: u16) -> (v: StatusVerdict)
    ensures
        v == (if code == 401 || code == 404 {
            StatusVerdict::NotOwned
        } else if !is_success(code) {
            StatusVerdict::Failed
        } else {
            StatusVerdict::Proceed
        }),
{
    if code == 401 || code == 404 {
        StatusVerdict::NotOwned
    } else if !(200 <= code && code <= 299) {
        StatusVerdict::Failed
    } else {
        StatusVerdict::Proceed
    }
}

/// The profile call: 404 means the game is not owned.
pub fn profile_status(code: u16) -> (v: StatusVerdict)
    ensures
        v == (if code == 404 {
            StatusVerdict::NotOwned
        } else if !is_success(code) {
            StatusVerdict::Failed
        } else {
            StatusVerdict::Proceed
        }),
{
    if code == 404 {
        StatusVerdict::NotOwned
    } else if !(200 <= code && code <= 299) {
        StatusVerdict::Failed
    } else {
        StatusVerdict::Proceed
    }
}

/// Whether an entitlement name grants Minecraft: Java Edition.
pub open spec fn grants_game(name: Option<String>) -> bool {
    name matches Some(n) && (n@ == "product_minecraft"@ || n@ == "game_minecraft"@)
}

/// Whether the entitlements include the game; `GameNotOwned` otherwise.
pub fn ensure_owns_game(names: &Vec<Option<String>>) -> (r: AppResult<()>)
    ensures
        (exists|i: int| 0 <= i < names@.len() && grants_game(#[trigger] names@[i])) ==> r is Ok,
        !(exists|i: int| 0 <= i < names@.len() && grants_game(#[trigger] names@[i])) ==> r matches Err(
            AppError::GameNotOwned,
        ),
{
    let mut i: usize = 0;
    while i < names.len()
        invariant
            i <= names@.len(),
            forall|k: int| 0 <= k < i ==> !grants_game(#[trigger] names@[k]),
        decreases names.len() - i,
    {
        if let Some(n) = &names[i] {
            if str_eq(n.as_str(), "product_minecraft") || str_eq(n.as_str(), "game_minecraft") {
                assert(grants_game(names@[i as int]));
                return Ok(());
            }
        }
        i += 1;
    }
    Err(AppError::GameNotOwned)
}

/// `s` without its `c`s.
pub open spec fn remove_char(s: Seq<char>, c: char) -> Seq<char>
    decreases s.len(),
{
    if s.len() == 0 {
        s
    } else if s.last() == c {
        remove_char(s.drop_last(), c)
    } else {
        remove_char(s.drop_last(), c).push(s.last())
    }
}

/// A 32-character id with dashes after its 8th, 12th, 16th and 20th
/// characters.
pub open spec fn dashed_uuid(c: Seq<char>) -> Seq<char> {
    c.subrange(0, 8) + "-"@ + c.subrange(8, 12) + "-"@ + c.subrange(12, 16) + "-"@ + c.subrange(
        16,
        20,
    ) + "-"@ + c.subrange(20, 32)
}

/// The bytes of a 32-byte id with a `-` after its 8th, 12th, 16th and 20th
/// bytes.
pub open spec fn dashed_bytes(b: Seq<u8>) -> Seq<u8> {
    b.subrange(0, 8) + seq![45u8] + b.subrange(8, 12) + seq![45u8] + b.subrange(12, 16) + seq![
        45u8,
    ] + b.subrange(16, 20) + seq![45u8] + b.subrange(20, 32)
}

/// Whether the bytes after which dashes go are each the end of a
/// character, so that the id can be cut there.
pub open spec fn uuid_cuts_ok(b: Seq<u8>) -> bool {
    &&& vstd::utf8::is_char_boundary(b, 8)
    &&& vstd::utf8::is_char_boundary(b, 12)
    &&& vstd::utf8::is_char_boundary(b, 16)
    &&& vstd::utf8::is_char_boundary(b, 20)
}

/// The UTF-8 of a concatenation is the concatenation of the UTF-8s.
pub proof fn lemma_encode_concat(a: Seq<char>, b: Seq<char>)
    ensures
        vstd::utf8::encode_utf8(a + b) == vstd::utf8::encode_utf8(a) + vstd::utf8::encode_utf8(b),
    decreases a.len(),
{
    if a.len() == 0 {
        assert(a + b =~= b);
        assert(vstd::utf8::encode_utf8(a) =~= Seq::<u8>::empty());
        assert(vstd::utf8::encode_utf8(a) + vstd::utf8::encode_utf8(b) =~= vstd::utf8::encode_utf8(
            b,
        ));
    } else {
        lemma_encode_concat(a.drop_first(), b);
        assert((a + b).drop_first() =~= a.drop_first() + b);
        assert((a + b)[0] == a[0]);
    }
}

proof fn lemma_cut_suffix(b: Seq<u8>, from: int, at: int)
    requires
        vstd::utf8::valid_utf8(b),
        vstd::utf8::is_char_boundary(b, from),
        vstd::utf8::is_char_boundary(b, at),
        0 <= from < at < b.len(),
    ensures
        vstd::utf8::valid_utf8(b.subrange(from, b.len() as int)),
        vstd::utf8::is_char_boundary(b.subrange(from, b.len() as int), at - from),
{
    vstd::utf8::valid_utf8_split(b, from);
    let r = b.subrange(from, b.len() as int);
    vstd::utf8::is_char_boundary_iff_not_is_continuation_byte(b, at);
    vstd::utf8::is_char_boundary_iff_not_is_continuation_byte(r, at - from);
    assert(r[at - from] == b[at]);
}

/// A profile id in the dashed form of a UUID: its dashes dropped, it must
/// be 32 bytes long; dashes go after bytes 8, 12, 16 and 20 (which must
/// each end a character, as the id is cut there).
pub fn insert_uuid_dashes(id: &str) -> (r: AppResult<String>)
    requires
        vstd::utf8::encode_utf8(remove_char(id@, '-')).len() == 32 ==> uuid_cuts_ok(
            vstd::utf8::encode_utf8(remove_char(id@, '-')),
        ),
    ensures
        vstd::utf8::encode_utf8(remove_char(id@, '-')).len() != 32 ==> (r matches Err(
            AppError::Auth(m),
        ) && m@ == "Unexpected profile UUID: "@ + id@),
        vstd::utf8::encode_utf8(remove_char(id@, '-')).len() == 32 ==> (r matches Ok(s)
            && vstd::utf8::encode_utf8(s@) == dashed_bytes(
            vstd::utf8::encode_utf8(remove_char(id@, '-')),
        ) && remove_char(s@, '-') == remove_char(id@, '-')),
{
    let v = chars_of(id);
    let mut compact: Vec<char> = Vec::new();
    let mut i: usize = 0;
    assert(v@.take(0) =~= Seq::<char>::empty());
    while i < v.len()
        invariant
            i <= v@.len(),
            v@ == id@,
            compact@ == remove_char(v@.take(i as int), '-'),
        decreases v.len() - i,
    {
        assert(v@.take(i + 1).drop_last() =~= v@.take(i as int));
        assert(v@.take(i + 1).last() == v@[i as int]);
        if v[i] != '-' {
            compact.push(v[i]);
        }
        i += 1;
    }
    assert(v@.take(v@.len() as int) =~= v@);
    let cs = string_of(compact.as_slice());
    let whole = cs.as_str();
    if whole.as_bytes().len() != 32 {
        return Err(AppError::Auth(concat2("Unexpected profile UUID: ", id)));
    }
    let ghost bytes = vstd::utf8::encode_utf8(whole@);
    assert(whole@ == remove_char(id@, '-'));
    assert(uuid_cuts_ok(bytes));
    proof {
        vstd::utf8::encode_utf8_valid_utf8(whole@);
        lemma_cut_suffix(bytes, 8, 12);
        lemma_cut_suffix(bytes, 12, 16);
        lemma_cut_suffix(bytes, 16, 20);
    }
    let (p0, rest1) = whole.split_at(8);
    assert(vstd::utf8::encode_utf8(rest1@) =~= bytes.subrange(8, 32));
    let (p1, rest2) = rest1.split_at(4);
    assert(vstd::utf8::encode_utf8(rest2@) =~= bytes.subrange(12, 32));
    let (p2, rest3) = rest2.split_at(4);
    assert(vstd::utf8::encode_utf8(rest3@) =~= bytes.subrange(16, 32));
    let (p3, p4) = rest3.split_at(4);
    let mut out = copy_str(p0);
    out.append("-");
    out.append(p1);
    out.append("-");
    out.append(p2);
    out.append("-");
    out.append(p3);
    out.append("-");
    out.append(p4);
    proof {
        reveal_strlit("-");
        let d = "-"@;
        assert(d.len() == 1 && d[0] == '-');
        assert(vstd::utf8::encode_utf8(d) =~= seq![45u8]) by {
            assert(d.drop_first().len() == 0);
            assert(vstd::utf8::encode_utf8(d.drop_first()) =~= Seq::<u8>::empty());
            assert(d[0] as u32 == 45u32);
            assert(((45u32 & 0x7Fu32) as u8) == 45u8) by (bit_vector);
            assert(vstd::utf8::encode_scalar(45u32) =~= seq![45u8]);
        }
        let a1 = p0@ + d;
        let a2 = a1 + p1@;
        let a3 = a2 + d;
        let a4 = a3 + p2@;
        let a5 = a4 + d;
        let a6 = a5 + p3@;
        let a7 = a6 + d;
        let a8 = a7 + p4@;
        assert(out@ == a8);
        lemma_encode_concat(p0@, d);
        lemma_encode_concat(a1, p1@);
        lemma_encode_concat(a2, d);
        lemma_encode_concat(a3, p2@);
        lemma_encode_concat(a4, d);
        lemma_encode_concat(a5, p3@);
        lemma_encode_concat(a6, d);
        lemma_encode_concat(a7, p4@);
        assert(vstd::utf8::encode_utf8(p0@) =~= bytes.subrange(0, 8));
        assert(vstd::utf8::encode_utf8(p1@) =~= bytes.subrange(8, 12));
        assert(vstd::utf8::encode_utf8(p2@) =~= bytes.subrange(12, 16));
        assert(vstd::utf8::encode_utf8(p3@) =~= bytes.subrange(16, 20));
        assert(vstd::utf8::encode_utf8(p4@) =~= bytes.subrange(20, 32));
        assert(vstd::utf8::encode_utf8(out@) =~= dashed_bytes(bytes));
        lemma_cut_rejoins(whole@, p0@, rest1@, bytes, 8);
        lemma_cut_rejoins(rest1@, p1@, rest2@, bytes.subrange(8, 32), 4);
        lemma_cut_rejoins(rest2@, p2@, rest3@, bytes.subrange(12, 32), 4);
        lemma_cut_rejoins(rest3@, p3@, p4@, bytes.subrange(16, 32), 4);
        assert(whole@ =~= p0@ + p1@ + p2@ + p3@ + p4@);
        lemma_removed_absent(id@, '-');
        lemma_concat_absent(p0@, rest1@);
        lemma_concat_absent(p1@, rest2@);
        lemma_concat_absent(p2@, rest3@);
        lemma_concat_absent(p3@, p4@);
        lemma_remove_absent(p0@, '-');
        lemma_remove_absent(p1@, '-');
        lemma_remove_absent(p2@, '-');
        lemma_remove_absent(p3@, '-');
        lemma_remove_absent(p4@, '-');
        assert(remove_char(d, '-') =~= Seq::<char>::empty()) by {
            assert(d.last() == '-');
            assert(d.drop_last().len() == 0);
            assert(remove_char(d.drop_last(), '-') == d.drop_last());
        }
        lemma_remove_char_concat(p0@, d, '-');
        lemma_remove_char_concat(a1, p1@, '-');
        lemma_remove_char_concat(a2, d, '-');
        lemma_remove_char_concat(a3, p2@, '-');
        lemma_remove_char_concat(a4, d, '-');
        lemma_remove_char_concat(a5, p3@, '-');
        lemma_remove_char_concat(a6, d, '-');
        lemma_remove_char_concat(a7, p4@, '-');
        assert(remove_char(out@, '-') =~= whole@);
    }
    Ok(out)
}

/// Two texts with the same UTF-8 are the same text.
proof fn lemma_utf8_injective(a: Seq<char>, b: Seq<char>)
    requires
        vstd::utf8::encode_utf8(a) == vstd::utf8::encode_utf8(b),
    ensures
        a == b,
{
    vstd::utf8::encode_utf8_decode_utf8(a);
    vstd::utf8::encode_utf8_decode_utf8(b);
}

/// A text cut at byte `at` of its UTF-8 is its two pieces put together.
proof fn lemma_cut_rejoins(whole: Seq<char>, left: Seq<char>, right: Seq<char>, bytes: Seq<u8>, at: int)
    requires
        vstd::utf8::encode_utf8(whole) == bytes,
        0 <= at <= bytes.len(),
        vstd::utf8::encode_utf8(left) == bytes.subrange(0, at),
        vstd::utf8::encode_utf8(right) == bytes.subrange(at, bytes.len() as int),
    ensures
        whole == left + right,
{
    lemma_encode_concat(left, right);
    assert(vstd::utf8::encode_utf8(left + right) =~= bytes);
    lemma_utf8_injective(whole, left + right);
}

proof fn lemma_concat_absent(a: Seq<char>, b: Seq<char>)
    requires
        !(a + b).contains('-'),
    ensures
        !a.contains('-'),
        !b.contains('-'),
{
    if a.contains('-') {
        let i = choose|i: int| 0 <= i < a.len() && a[i] == '-';
        assert((a + b)[i] == '-');
    }
    if b.contains('-') {
        let i = choose|i: int| 0 <= i < b.len() && b[i] == '-';
        assert((a + b)[a.len() + i] == '-');
    }
}

proof fn lemma_dashed_ascii(c: Seq<char>)
    requires
        c.len() == 32,
        vstd::utf8::is_ascii_chars(c),
    ensures
        vstd::utf8::encode_utf8(dashed_uuid(c)) == dashed_bytes(vstd::utf8::encode_utf8(c)),
{
    reveal_strlit("-");
    vstd::utf8::is_ascii_chars_encode_utf8(c);
    let d = dashed_uuid(c);
    assert(d.len() == 36);
    assert(vstd::utf8::is_ascii_chars(d)) by {
        assert forall|i: int| 0 <= i < d.len() implies (#[trigger] d[i]) as u32 <= 0x7f by {
            if i < 8 {
                assert(d[i] == c[i]);
            } else if i == 8 || i == 13 || i == 18 || i == 23 {
                assert(d[i] == '-');
            } else if i < 13 {
                assert(d[i] == c[i - 1]);
            } else if i < 18 {
                assert(d[i] == c[i - 2]);
            } else if i < 23 {
                assert(d[i] == c[i - 3]);
            } else {
                assert(d[i] == c[i - 4]);
            }
        }
    }
    vstd::utf8::is_ascii_chars_encode_utf8(d);
    let b = vstd::utf8::encode_utf8(c);
    let e = vstd::utf8::encode_utf8(d);
    assert(e =~= dashed_bytes(b)) by {
        assert forall|i: int| 0 <= i < 36 implies #[trigger] e[i] == dashed_bytes(b)[i] by {
            if i < 8 {
                assert(d[i] == c[i]);
            } else if i == 8 || i == 13 || i == 18 || i == 23 {
                assert(d[i] == '-');
            } else if i < 13 {
                assert(d[i] == c[i - 1]);
            } else if i < 18 {
                assert(d[i] == c[i - 2]);
            } else if i < 23 {
                assert(d[i] == c[i - 3]);
            } else {
                assert(d[i] == c[i - 4]);
            }
        }
    }
}

proof fn lemma_remove_char_concat(a: Seq<char>, b: Seq<char>, c: char)
    ensures
        remove_char(a + b, c) == remove_char(a, c) + remove_char(b, c),
    decreases b.len(),
{
    if b.len() == 0 {
        assert(a + b =~= a);
        assert(remove_char(a, c) + remove_char(b, c) =~= remove_char(a, c));
    } else {
        lemma_remove_char_concat(a, b.drop_last(), c);
        assert((a + b).drop_last() =~= a + b.drop_last());
        assert((a + b).last() == b.last());
        if b.last() != c {
            assert(remove_char(a, c) + remove_char(b.drop_last(), c).push(b.last()) =~= (
            remove_char(a, c) + remove_char(b.drop_last(), c)).push(b.last()));
        }
    }
}

proof fn lemma_remove_absent(s: Seq<char>, c: char)
    requires
        !s.contains(c),
    ensures
        remove_char(s, c) == s,
    decreases s.len(),
{
    if s.len() > 0 {
        assert(!s.drop_last().contains(c)) by {
            if s.drop_last().contains(c) {
                let k = choose|k: int| 0 <= k < s.drop_last().len() && s.drop_last()[k] == c;
                assert(s[k] == c);
            }
        }
        lemma_remove_absent(s.drop_last(), c);
        assert(s.last() == s[s.len() - 1]);
        assert(s.drop_last().push(s.last()) =~= s);
    }
}


/// The session of a Microsoft account whose profile was fetched.
pub fn session_from_profile(
    access_token: String,
    refresh_token: Option<String>,
    profile_id: &str,
    profile_name: String,
) -> (r: AppResult<AuthSession>)
    requires
        vstd::utf8::encode_utf8(remove_char(profile_id@, '-')).len() == 32 ==> uuid_cuts_ok(
            vstd::utf8::encode_utf8(remove_char(profile_id@, '-')),
        ),
    ensures
        vstd::utf8::encode_utf8(remove_char(profile_id@, '-')).len() != 32 ==> (r matches Err(
            AppError::Auth(m),
        ) && m@ == "Unexpected profile UUID: "@ + profile_id@),
        vstd::utf8::encode_utf8(remove_char(profile_id@, '-')).len() == 32 ==> (r matches Ok(s)
            && vstd::utf8::encode_utf8(s.uuid@) == dashed_bytes(
            vstd::utf8::encode_utf8(remove_char(profile_id@, '-')),
        ) && s.access_token
            == access_token && s.refresh_token == refresh_token && s.username == profile_name
            && s.xuid is None && !s.offline),
{
    let uuid = insert_uuid_dashes(profile_id)?;
    Ok(
        AuthSession {
            access_token,
            refresh_token,
            uuid,
            username: profile_name,
            xuid: None,
            offline: false,
        },
    )
}


// ---------------------------------------------------------------------------
// Restoring a session
// ---------------------------------------------------------------------------

/// How restoring a Microsoft session from its stored refresh token ends.
#[derive(Debug)]
pub enum RestoreOutcome {
    /// A session was restored.
    Restored(AuthSession),
    /// There is no session to restore.
    NoSession,
    /// Restoring failed: the stored sign-in is to be forgotten and the
    /// error reported.
    Failed(AppError),
}

/// How restoring ends after the refresh: a refreshed session is restored;
/// no stored token, or no client ID, means no session; any other error
/// fails.
pub fn restore_outcome(refreshed: AppResult<Option<AuthSession>>) -> (r: RestoreOutcome)
    ensures
        match refreshed {
            Ok(Some(s)) => r == RestoreOutcome::Restored(s),
            Ok(None) => r is NoSession,
            Err(AppError::MissingClientId) => r is NoSession,
            Err(e) => r == RestoreOutcome::Failed(e),
        },
{
    match refreshed {
        Ok(Some(s)) => RestoreOutcome::Restored(s),
        Ok(None) => RestoreOutcome::NoSession,
        Err(AppError::MissingClientId) => RestoreOutcome::NoSession,
        Err(e) => RestoreOutcome::Failed(e),
    }
}


proof fn lemma_removed_absent(s: Seq<char>, c: char)
    ensures
        !remove_char(s, c).contains(c),
    decreases s.len(),
{
    if s.len() > 0 {
        lemma_removed_absent(s.drop_last(), c);
        let r = remove_char(s.drop_last(), c);
        if s.last() != c {
            assert forall|k: int| 0 <= k < r.push(s.last()).len() implies r.push(s.last())[k] != c by {
                if k < r.len() {
                    assert(r.push(s.last())[k] == r[k]);
                }
            }
        }
    }
}

/// Law: `insert_uuid_dashes` is idempotent: for a result `s` of dashing
/// `id` (its UTF-8 the dashed bytes, the same id once dashes are dropped),
/// dashing `s` again is allowed and gives `s` back.
pub proof fn lemma_dashes_idempotent(id: Seq<char>, s: Seq<char>)
    requires
        vstd::utf8::encode_utf8(remove_char(id, '-')).len() == 32,
        uuid_cuts_ok(vstd::utf8::encode_utf8(remove_char(id, '-'))),
        vstd::utf8::encode_utf8(s) == dashed_bytes(vstd::utf8::encode_utf8(remove_char(id, '-'))),
        remove_char(s, '-') == remove_char(id, '-'),
    ensures
        vstd::utf8::encode_utf8(remove_char(s, '-')).len() == 32,
        uuid_cuts_ok(vstd::utf8::encode_utf8(remove_char(s, '-'))),
        dashed_bytes(vstd::utf8::encode_utf8(remove_char(s, '-'))) == vstd::utf8::encode_utf8(s),
{
}

/// Law: for an id of 32 ASCII characters, the dashed result is the usual
/// 8-4-4-4-12 form of a UUID.
pub proof fn lemma_dashed_ascii_text(c: Seq<char>, s: Seq<char>)
    requires
        c.len() == 32,
        vstd::utf8::is_ascii_chars(c),
        vstd::utf8::encode_utf8(s) == dashed_bytes(vstd::utf8::encode_utf8(c)),
    ensures
        s == dashed_uuid(c),
{
    lemma_dashed_ascii(c);
    lemma_utf8_injective(s, dashed_uuid(c));
}

// ---------------------------------------------------------------------------
// The Microsoft sign-in chain
// ---------------------------------------------------------------------------

/// The service a sign-in is talking to.
#[derive(Debug, Clone, Copy, PartialEq, Eq, Structural)]
pub enum SignInPhase {
    Xbox,
    Xsts,
    Minecraft,
    Entitlements,
    Profile,
}

/// How a failed call to each service is named in its error.
pub open spec fn phase_name(p: SignInPhase) -> Seq<char> {
    match p {
        SignInPhase::Xbox => "Xbox Live authenticate"@,
        SignInPhase::Xsts => "Xbox XSTS authorize"@,
        SignInPhase::Minecraft => "Minecraft login"@,
        SignInPhase::Entitlements => "Entitlements check"@,
        SignInPhase::Profile => "Profile fetch"@,
    }
}

fn phase_name_of(p: SignInPhase) -> (r: &'static str)
    ensures
        r@ == phase_name(p),
{
    match p {
        SignInPhase::Xbox => "Xbox Live authenticate",
        SignInPhase::Xsts => "Xbox XSTS authorize",
        SignInPhase::Minecraft => "Minecraft login",
        SignInPhase::Entitlements => "Entitlements check",
        SignInPhase::Profile => "Profile fetch",
    }
}

/// A Microsoft sign-in on its way from a Microsoft token to a Minecraft
/// session: the service being called, the refresh token to keep, the
/// Minecraft token once obtained, the status of the last reply, and
/// whether the account was seen to own the game.
#[derive(Debug, Clone)]
pub struct SignIn {
    pub phase: SignInPhase,
    pub refresh_token: Option<String>,
    pub mc_token: String,
    pub status: String,
    pub owns_game: bool,
}

/// What the calls of a sign-in report.
#[derive(Debug)]
pub enum SignInEvent {
    /// Signing in starts from a Microsoft access token.
    Begin { msa_access_token: String, refresh_token: Option<String> },
    /// The current service answered with this status.
    Status { code: u16, status: String },
    /// The body of a failed reply, as text.
    FailureBody(String),
    /// Xbox Live's token.
    XboxToken(String),
    /// The XSTS token and the user hashes of its claims.
    XstsTokens { token: String, user_hashes: Vec<String> },
    /// Minecraft services' access token.
    MinecraftToken(String),
    /// The names of the account's entitlements.
    EntitlementNames(Vec<Option<String>>),
    /// The Minecraft profile.
    Profile { id: String, name: String },
    /// A call failed before a reply could be read.
    Failed(AppError),
}

/// The next call of a sign-in.
#[derive(Debug)]
pub enum SignInStep {
    /// Authenticate with Xbox Live with this RPS ticket.
    AuthenticateXbox { rps_ticket: String },
    /// Authorize with XSTS with this Xbox Live token.
    AuthorizeXsts { xbox_token: String },
    /// Sign in to Minecraft services with this identity token.
    LoginMinecraft { identity_token: String },
    /// Ask for the account's entitlements with this token.
    GetEntitlements { access_token: String },
    /// Ask for the account's profile with this token.
    GetProfile { access_token: String },
    /// Read the reply's JSON body.
    ReadBody,
    /// Read the failed reply's body as text.
    ReadFailureBody,
    /// Signing in is over.
    Finish(AppResult<AuthSession>),
}

/// Whether the status of a reply lets the current phase read its body
/// (`Some(true)`), fails it with the body's text (`Some(false)`), or ends
/// it because the account does not own the game (`None`).
pub open spec fn status_outcome(p: SignInPhase, code: u16) -> Option<bool> {
    match p {
        SignInPhase::Entitlements => if code == 401 || code == 404 {
            None
        } else {
            Some(is_success(code))
        },
        SignInPhase::Profile => if code == 404 {
            None
        } else {
            Some(is_success(code))
        },
        _ => Some(is_success(code)),
    }
}

impl SignIn {
    /// A sign-in that has not started.
    pub fn new() -> (r: SignIn)
        ensures
            r.phase == SignInPhase::Xbox,
            r.refresh_token is None,
            r.mc_token@.len() == 0,
            r.status@.len() == 0,
            !r.owns_game,
    {
        SignIn {
            phase: SignInPhase::Xbox,
            refresh_token: None,
            mc_token: String::new(),
            status: String::new(),
            owns_game: false,
        }
    }

    /// The next call after `event`.
    ///
    /// Xbox Live, XSTS and Minecraft services are called in turn; a reply
    /// with a failed status ends the sign-in with the service's name, the
    /// status and the body. The entitlements must name the game, and a
    /// session is only ever made once they did: a profile that comes before
    /// that ends the sign-in with `GameNotOwned`.
    pub fn next(&mut self, event: SignInEvent) -> (r: SignInStep)
        requires
            event matches SignInEvent::Profile { id, .. } ==> (vstd::utf8::encode_utf8(
                remove_char(id@, '-'),
            ).len() == 32 ==> uuid_cuts_ok(vstd::utf8::encode_utf8(remove_char(id@, '-')))),
        ensures
            match event {
                SignInEvent::Begin { msa_access_token, refresh_token } => {
                    &&& r matches SignInStep::AuthenticateXbox { rps_ticket } && rps_ticket@
                        == "d="@ + msa_access_token@
                    &&& final(self).phase == SignInPhase::Xbox
                    &&& final(self).refresh_token == refresh_token
                    &&& !final(self).owns_game
                },
                SignInEvent::Status { code, status } => {
                    &&& final(self).status == status
                    &&& final(self).phase == old(self).phase
                    &&& final(self).owns_game == old(self).owns_game
                    &&& match status_outcome(old(self).phase, code) {
                        None => r matches SignInStep::Finish(Err(AppError::GameNotOwned)),
                        Some(true) => r is ReadBody,
                        Some(false) => r is ReadFailureBody,
                    }
                },
                SignInEvent::FailureBody(body) => {
                    &&& final(self).owns_game == old(self).owns_game
                    &&& r matches SignInStep::Finish(Err(AppError::Auth(m))) && m@ == phase_name(
                        old(self).phase,
                    ) + " failed ("@ + old(self).status@ + "): "@ + body@
                },
                SignInEvent::XboxToken(t) => {
                    &&& r == SignInStep::AuthorizeXsts { xbox_token: t }
                    &&& final(self).phase == SignInPhase::Xsts
                    &&& final(self).owns_game == old(self).owns_game
                },
                SignInEvent::XstsTokens { token, user_hashes } => {
                    &&& final(self).owns_game == old(self).owns_game
                    &&& if user_hashes@.len() == 0 {
                        r matches SignInStep::Finish(Err(AppError::Auth(m))) && m@
                            == "Xbox XSTS response missing user hash"@
                    } else {
                        &&& r matches SignInStep::LoginMinecraft { identity_token } && identity_token@
                            == "XBL3.0 x="@ + user_hashes@[0]@ + ";"@ + token@
                        &&& final(self).phase == SignInPhase::Minecraft
                    }
                },
                SignInEvent::MinecraftToken(t) => {
                    &&& r == SignInStep::GetEntitlements { access_token: t }
                    &&& final(self).mc_token == t
                    &&& final(self).phase == SignInPhase::Entitlements
                    &&& !final(self).owns_game
                },
                SignInEvent::EntitlementNames(names) => {
                    let owns = exists|i: int| 0 <= i < names@.len() && grants_game(#[trigger] names@[i]);
                    &&& final(self).owns_game == (old(self).owns_game || owns)
                    &&& if owns {
                        &&& r == SignInStep::GetProfile { access_token: old(self).mc_token }
                        &&& final(self).phase == SignInPhase::Profile
                    } else {
                        r matches SignInStep::Finish(Err(AppError::GameNotOwned))
                    }
                },
                SignInEvent::Profile { id, name } => {
                    &&& final(self).owns_game == old(self).owns_game
                    &&& if !old(self).owns_game {
                        r matches SignInStep::Finish(Err(AppError::GameNotOwned))
                    } else if vstd::utf8::encode_utf8(remove_char(id@, '-')).len() != 32 {
                        r matches SignInStep::Finish(Err(AppError::Auth(m))) && m@
                            == "Unexpected profile UUID: "@ + id@
                    } else {
                        r matches SignInStep::Finish(Ok(s)) && vstd::utf8::encode_utf8(s.uuid@)
                            == dashed_bytes(vstd::utf8::encode_utf8(remove_char(id@, '-')))
                            && s.access_token == old(self).mc_token && s.refresh_token == old(
                            self,
                        ).refresh_token && s.username == name && s.xuid is None && !s.offline
                    }
                },
                SignInEvent::Failed(e) => {
                    &&& final(self).owns_game == old(self).owns_game
                    &&& r == SignInStep::Finish(Err(e))
                },
            },
            r matches SignInStep::Finish(Ok(_)) ==> old(self).owns_game,
            final(self).owns_game ==> old(self).owns_game || (event matches SignInEvent::EntitlementNames(
                names,
            ) && exists|i: int| 0 <= i < names@.len() && grants_game(#[trigger] names@[i])),
    {
        match event {
            SignInEvent::Begin { msa_access_token, refresh_token } => {
                self.phase = SignInPhase::Xbox;
                self.refresh_token = refresh_token;
                self.mc_token = String::new();
                self.status = String::new();
                self.owns_game = false;
                SignInStep::AuthenticateXbox { rps_ticket: rps_ticket(msa_access_token.as_str()) }
            },
            SignInEvent::Status { code, status } => {
                self.status = status;
                let verdict = match self.phase {
                    SignInPhase::Entitlements => entitlements_status(code),
                    SignInPhase::Profile => profile_status(code),
                    _ => if 200 <= code && code <= 299 {
                        StatusVerdict::Proceed
                    } else {
                        StatusVerdict::Failed
                    },
                };
                match verdict {
                    StatusVerdict::NotOwned => SignInStep::Finish(Err(AppError::GameNotOwned)),
                    StatusVerdict::Failed => SignInStep::ReadFailureBody,
                    StatusVerdict::Proceed => SignInStep::ReadBody,
                }
            },
            SignInEvent::FailureBody(body) => {
                let e = service_failure(phase_name_of(self.phase), self.status.as_str(), body.as_str());
                SignInStep::Finish(Err(e))
            },
            SignInEvent::XboxToken(t) => {
                self.phase = SignInPhase::Xsts;
                SignInStep::AuthorizeXsts { xbox_token: t }
            },
            SignInEvent::XstsTokens { token, user_hashes } => match first_user_hash(&user_hashes) {
                Err(e) => SignInStep::Finish(Err(e)),
                Ok(uhs) => {
                    self.phase = SignInPhase::Minecraft;
                    SignInStep::LoginMinecraft {
                        identity_token: xbl_identity_token(uhs.as_str(), token.as_str()),
                    }
                },
            },
            SignInEvent::MinecraftToken(t) => {
                self.phase = SignInPhase::Entitlements;
                self.mc_token = t.clone();
                self.owns_game = false;
                SignInStep::GetEntitlements { access_token: t }
            },
            SignInEvent::EntitlementNames(names) => match ensure_owns_game(&names) {
                Ok(()) => {
                    self.owns_game = true;
                    self.phase = SignInPhase::Profile;
                    SignInStep::GetProfile { access_token: self.mc_token.clone() }
                },
                Err(e) => SignInStep::Finish(Err(e)),
            },
            SignInEvent::Profile { id, name } => {
                if !self.owns_game {
                    return SignInStep::Finish(Err(AppError::GameNotOwned));
                }
                let refresh = copy_opt(&self.refresh_token);
                SignInStep::Finish(
                    session_from_profile(self.mc_token.clone(), refresh, id.as_str(), name),
                )
            },
            SignInEvent::Failed(e) => SignInStep::Finish(Err(e)),
        }
    }
}

} // verus!
