//! Time-locked license codes bound to the machine's MAC address.
//!
//! A license code is `PN1.<payload>.<signature>`: the payload is the Base64 text of
//! the license's JSON, the signature the MD5 hex digest of `<payload>|<secret>`.

use crate::db::{is_lower_hex, md5_hex, md5_hex_of};
use crate::text::{
    all_white, is_white, lemma_trim_padded, chars_of, eq, eq_str, lemma_split_after, lemma_split_single, lemma_trim_ends, split_chars,
    split_on, string_from, to_lowercase, trim, trim_chars, trim_string, unicode_lower, views,
};
use base64::engine::general_purpose::STANDARD as B64;
use base64::Engine as _;
use chrono::Datelike;
use vstd::prelude::*;
use vstd::string::StringSliceAdditionalSpecFns;
use vstd::utf8::{decode_utf8, encode_utf8_decode_utf8, encode_utf8_valid_utf8, valid_utf8};

verus! {

// ---------------------------------------------------------------------------
// Outside calls: Base64 (`base64` crate), UTF-8 (std), dates (`chrono`)
// ---------------------------------------------------------------------------

/// What the `base64` crate's `STANDARD` engine encodes these bytes to.
pub uninterp spec fn base64_text(data: Seq<u8>) -> Seq<char>;

/// What the `base64` crate's `STANDARD` engine decodes this text to (`None` on error).
pub uninterp spec fn base64_bytes(text: Seq<char>) -> Option<Seq<u8>>;

/// A character of the standard Base64 alphabet, or the padding `=`.
pub open spec fn is_base64_char(c: char) -> bool {
    ('A' <= c <= 'Z') || ('a' <= c <= 'z') || ('0' <= c <= '9') || c == '+' || c == '/' || c
        == '='
}

/// `STANDARD.encode(data)` of the `base64` crate. The text is named `base64_text`;
/// it is made of the standard alphabet and `=` padding, and decoding it with the
/// same engine gives the bytes back.
#[verifier::external_body]
fn base64_encode(data: &[u8]) -> (r: String)
    ensures
        r@ == base64_text(data@),
        base64_bytes(r@) == Some(data@),
        forall|i: int| 0 <= i < r@.len() ==> is_base64_char(#[trigger] r@[i]),
{
    B64.encode(data)
}

/// `STANDARD.decode(text)` of the `base64` crate, `None` on any decode error. The
/// result is named `base64_bytes`.
#[verifier::external_body]
fn base64_decode(text: &str) -> (r: Option<Vec<u8>>)
    ensures
        match r {
            Some(v) => base64_bytes(text@) == Some(v@),
            None => base64_bytes(text@) is None,
        },
{
    B64.decode(text).ok()
}

/// std `String::from_utf8`: the text when the bytes are valid UTF-8.
#[verifier::external_body]
fn utf8_string(bytes: Vec<u8>) -> (r: Option<String>)
    ensures
        r is Some <==> valid_utf8(bytes@),
        r matches Some(s) ==> s@ == decode_utf8(bytes@),
{
    String::from_utf8(bytes).ok()
}

/// What `chrono::NaiveDate::parse_from_str(text, "%Y-%m-%d")` yields, as the
/// date's day number counted from 0001-01-01 = 1 (`Datelike::num_days_from_ce`).
pub uninterp spec fn ymd_day_number(text: Seq<char>) -> Option<i32>;

/// `NaiveDate::parse_from_str(text, "%Y-%m-%d")` of `chrono`, the date given by its
/// day number (`num_days_from_ce`). The result is named `ymd_day_number`.
#[verifier::external_body]
fn parse_ymd(text: &str) -> (r: Option<i32>)
    ensures
        r == ymd_day_number(text@),
{
    match chrono::NaiveDate::parse_from_str(text, "%Y-%m-%d") {
        Ok(d) => Some(d.num_days_from_ce()),
        Err(_) => None,
    }
}

// ---------------------------------------------------------------------------
// Payload and request bodies
// ---------------------------------------------------------------------------

/// The signed content of a license.
pub struct LicensePayload {
    pub v: i32,
    pub license_id: String,
    pub customer: String,
    pub valid_from: String,
    pub valid_until: String,
    pub device_lock: bool,
}

/// Request to activate a license code.
pub struct ActivateBody {
    pub license_code: String,
}

/// Request to issue a new license code.
pub struct IssueBody {
    pub customer: String,
    pub valid_from: String,
    pub valid_until: String,
    pub device_lock: Option<bool>,
    pub master_key: String,
}

/// `parse_date`: the day number of `s.trim()` read as `YYYY-MM-DD`, else the message
/// `日期格式应为 YYYY-MM-DD: <s>`.
pub open spec fn date_result(s: Seq<char>) -> Result<i32, Seq<char>> {
    match ymd_day_number(trim(s)) {
        Some(d) => Ok(d),
        None => Err("日期格式应为 YYYY-MM-DD: "@ + s),
    }
}

/// Reads a `YYYY-MM-DD` date (surrounding whitespace ignored) as its day number.
pub fn parse_date(s: &str) -> (r: Result<i32, String>)
    ensures
        match r {
            Ok(d) => date_result(s@) == Ok::<i32, Seq<char>>(d),
            Err(m) => date_result(s@) == Err::<i32, Seq<char>>(m@),
        },
{
    let t = trim_string(s);
    match parse_ymd(t.as_str()) {
        Some(d) => Ok(d),
        None => {
            let mut m = String::from_str("日期格式应为 YYYY-MM-DD: ");
            m.append(s);
            Err(m)
        },
    }
}

// ---------------------------------------------------------------------------
// License codes
// ---------------------------------------------------------------------------

/// Why a license code was refused.
#[derive(Clone, Copy, PartialEq, Eq, Debug)]
pub enum LicenseCodeError {
    /// Not three `.`-separated parts starting with `PN1`.
    Format,
    /// The signature does not match the payload.
    Signature,
    /// The payload is not Base64 of UTF-8 text.
    Corrupt,
}

impl LicenseCodeError {
    /// The message shown for this error.
    pub fn message(&self) -> (r: String)
        ensures
            r@ == match self {
                LicenseCodeError::Format => "授权码格式无效"@,
                LicenseCodeError::Signature => "授权码签名校验失败"@,
                LicenseCodeError::Corrupt => "授权码内容损坏"@,
            },
    {
        match self {
            LicenseCodeError::Format => String::from_str("授权码格式无效"),
            LicenseCodeError::Signature => String::from_str("授权码签名校验失败"),
            LicenseCodeError::Corrupt => String::from_str("授权码内容损坏"),
        }
    }
}

/// The code prefix.
pub open spec fn code_prefix() -> Seq<char> {
    seq!['P', 'N', '1']
}

/// The signature of a Base64 payload under `secret`: the MD5 hex of `<payload>|<secret>`.
pub open spec fn signature_of(payload: Seq<char>, secret: Seq<char>) -> Seq<char> {
    md5_hex_of(payload + seq!['|'] + secret)
}

/// The JSON text that a license code carries under `secret`, or why it is refused.
pub open spec fn decoded_payload(code: Seq<char>, secret: Seq<char>) -> Result<
    Seq<char>,
    LicenseCodeError,
> {
    let parts = split_on(trim(code), '.');
    if parts.len() != 3 || parts[0] != code_prefix() {
        Err(LicenseCodeError::Format)
    } else if signature_of(parts[1], secret) != parts[2] {
        Err(LicenseCodeError::Signature)
    } else {
        match base64_bytes(parts[1]) {
            None => Err(LicenseCodeError::Corrupt),
            Some(bytes) => if valid_utf8(bytes) {
                Ok(decode_utf8(bytes))
            } else {
                Err(LicenseCodeError::Corrupt)
            },
        }
    }
}

/// `sign_payload`: the signature of a Base64 payload under `secret`.
pub fn sign_payload(payload: &str, secret: &str) -> (r: String)
    ensures
        r@ == signature_of(payload@, secret@),
        r@.len() == 32,
        forall|i: int| 0 <= i < r@.len() ==> is_lower_hex(#[trigger] r@[i]),
{
    let mut text = String::from_str(payload);
    text.append("|");
    text.append(secret);
    proof {
        reveal_strlit("|");
        assert(text@ =~= payload@ + seq!['|'] + secret@);
    }
    md5_hex(text.as_str())
}

/// The license code for a payload's JSON text under `secret`:
/// `PN1.<Base64 of the JSON>.<signature>`. Decoding it with the same secret gives
/// the JSON text back.
pub fn encode_license(payload_json: &str, secret: &str) -> (r: String)
    ensures
        ({
            let b64 = base64_text(payload_json.spec_bytes());
            r@ == code_prefix() + seq!['.'] + b64 + seq!['.'] + signature_of(b64, secret@)
        }),
        decoded_payload(r@, secret@) == Ok::<Seq<char>, LicenseCodeError>(payload_json@),
        forall|lead: Seq<char>, trail: Seq<char>|
            all_white(lead) && all_white(trail) ==> #[trigger] decoded_payload(
                lead + r@ + trail,
                secret@,
            ) == Ok::<Seq<char>, LicenseCodeError>(payload_json@),
        forall|sig: Seq<char>|
            !sig.contains('.') && (sig.len() == 0 || !is_white(sig.last())) && sig
                != signature_of(base64_text(payload_json.spec_bytes()), secret@)
                ==> #[trigger] decoded_payload(
                code_prefix() + seq!['.'] + base64_text(payload_json.spec_bytes()) + seq!['.']
                    + sig,
                secret@,
            ) == Err::<Seq<char>, LicenseCodeError>(LicenseCodeError::Signature),
{
    let b64 = base64_encode(payload_json.as_bytes());
    let sig = sign_payload(b64.as_str(), secret);
    let mut code = String::from_str("PN1.");
    code.append(b64.as_str());
    code.append(".");
    code.append(sig.as_str());
    proof {
        reveal_strlit("PN1.");
        reveal_strlit(".");
        let p = code_prefix();
        assert(code@ =~= p + seq!['.'] + b64@ + seq!['.'] + sig@);
        lemma_code_decodes(payload_json@, b64@, sig@, secret@);
        let c = code@;
        assert(c[0] == 'P');
        assert(c.last() == sig@.last());
        assert(is_lower_hex(sig@[sig@.len() - 1]));
        assert forall|lead: Seq<char>, trail: Seq<char>|
            all_white(lead) && all_white(trail) implies #[trigger] decoded_payload(
            lead + c + trail,
            secret@,
        ) == decoded_payload(c, secret@) by {
            lemma_trim_padded(lead, c, trail);
            lemma_trim_ends(c);
        }
        assert forall|s2: Seq<char>|
            !s2.contains('.') && (s2.len() == 0 || !is_white(s2.last())) && s2 != signature_of(
                b64@,
                secret@,
            ) implies #[trigger] decoded_payload(
            code_prefix() + seq!['.'] + b64@ + seq!['.'] + s2,
            secret@,
        ) == Err::<Seq<char>, LicenseCodeError>(LicenseCodeError::Signature) by {
            lemma_code_tampered(b64@, s2, secret@);
        }
    }
    code
}

proof fn lemma_code_tampered(b64: Seq<char>, sig: Seq<char>, secret: Seq<char>)
    requires
        forall|i: int| 0 <= i < b64.len() ==> is_base64_char(#[trigger] b64[i]),
        !sig.contains('.'),
        sig.len() == 0 || !is_white(sig.last()),
        sig != signature_of(b64, secret),
    ensures
        decoded_payload(code_prefix() + seq!['.'] + b64 + seq!['.'] + sig, secret) == Err::<
            Seq<char>,
            LicenseCodeError,
        >(LicenseCodeError::Signature),
{
    let p = code_prefix();
    let code = p + seq!['.'] + b64 + seq!['.'] + sig;
    assert(code[0] == 'P');
    if sig.len() == 0 {
        assert(code.last() == '.');
    } else {
        assert(code.last() == sig.last());
    }
    lemma_trim_ends(code);
    assert(trim(code) == code);
    assert(!p.contains('.')) by {
        assert forall|i: int| 0 <= i < p.len() implies p[i] != '.' by {}
    }
    assert(!b64.contains('.')) by {
        assert forall|i: int| 0 <= i < b64.len() implies b64[i] != '.' by {
            assert(is_base64_char(b64[i]));
        }
    }
    let rest = b64.push('.') + sig;
    assert(code =~= p.push('.') + rest);
    lemma_split_after(p, rest, '.');
    lemma_split_after(b64, sig, '.');
    lemma_split_single(sig, '.');
    assert(split_on(code, '.') =~= seq![p, b64, sig]);
}

proof fn lemma_code_decodes(json: Seq<char>, b64: Seq<char>, sig: Seq<char>, secret: Seq<char>)
    requires
        base64_bytes(b64) == Some(vstd::utf8::encode_utf8(json)),
        forall|i: int| 0 <= i < b64.len() ==> is_base64_char(#[trigger] b64[i]),
        sig == signature_of(b64, secret),
        sig.len() == 32,
        forall|i: int| 0 <= i < sig.len() ==> is_lower_hex(#[trigger] sig[i]),
    ensures
        decoded_payload(code_prefix() + seq!['.'] + b64 + seq!['.'] + sig, secret) == Ok::<
            Seq<char>,
            LicenseCodeError,
        >(json),
{
    let p = code_prefix();
    let code = p + seq!['.'] + b64 + seq!['.'] + sig;
    assert(code[0] == 'P');
    assert(code.last() == sig.last());
    assert(is_lower_hex(sig[sig.len() - 1]));
    lemma_trim_ends(code);
    assert(trim(code) == code);
    assert(!p.contains('.')) by {
        assert forall|i: int| 0 <= i < p.len() implies p[i] != '.' by {}
    }
    assert(!b64.contains('.')) by {
        assert forall|i: int| 0 <= i < b64.len() implies b64[i] != '.' by {
            assert(is_base64_char(b64[i]));
        }
    }
    assert(!sig.contains('.')) by {
        assert forall|i: int| 0 <= i < sig.len() implies sig[i] != '.' by {
            assert(is_lower_hex(sig[i]));
        }
    }
    let rest = b64.push('.') + sig;
    assert(code =~= p.push('.') + rest);
    lemma_split_after(p, rest, '.');
    lemma_split_after(b64, sig, '.');
    lemma_split_single(sig, '.');
    assert(split_on(code, '.') =~= seq![p, b64, sig]);
    encode_utf8_valid_utf8(json);
    encode_utf8_decode_utf8(json);
}

/// `decode_license`: the JSON text that `code` carries under `secret`. The code is
/// trimmed and split at `.`; it must have three parts, the first `PN1`, the third
/// the signature of the second, and the second must be Base64 of UTF-8 text.
pub fn decode_license(code: &str, secret: &str) -> (r: Result<String, LicenseCodeError>)
    ensures
        match r {
            Ok(t) => decoded_payload(code@, secret@) == Ok::<Seq<char>, LicenseCodeError>(t@),
            Err(e) => decoded_payload(code@, secret@) == Err::<Seq<char>, LicenseCodeError>(e),
        },
{
    let chars = chars_of(code);
    let t = trim_chars(chars.as_slice());
    let parts = split_chars(t.as_slice(), '.');
    assert(views(parts@) == split_on(trim(code@), '.'));
    if parts.len() != 3 || !eq_str(parts[0].as_slice(), "PN1") {
        proof {
            reveal_strlit("PN1");
            assert("PN1"@ =~= code_prefix());
            if parts@.len() == 3 {
                assert(views(parts@)[0] == parts@[0]@);
            }
        }
        return Err(LicenseCodeError::Format);
    }
    proof {
        reveal_strlit("PN1");
        assert("PN1"@ =~= code_prefix());
        assert(views(parts@)[0] == parts@[0]@);
        assert(views(parts@)[1] == parts@[1]@);
        assert(views(parts@)[2] == parts@[2]@);
    }
    let payload = string_from(parts[1].as_slice());
    let sig = sign_payload(payload.as_str(), secret);
    let sig_chars = chars_of(sig.as_str());
    if !eq(sig_chars.as_slice(), parts[2].as_slice()) {
        return Err(LicenseCodeError::Signature);
    }
    match base64_decode(payload.as_str()) {
        None => Err(LicenseCodeError::Corrupt),
        Some(bytes) => match utf8_string(bytes) {
            Some(text) => Ok(text),
            None => Err(LicenseCodeError::Corrupt),
        },
    }
}

// ---------------------------------------------------------------------------
// Issuing and activating
// ---------------------------------------------------------------------------

/// Why an issue request was refused.
#[derive(Clone, Copy, PartialEq, Eq, Debug)]
pub enum IssueError {
    /// The master key does not match (`签发密钥错误`).
    WrongMasterKey,
    /// `validFrom` is not a date (`起始日期无效`).
    InvalidStart,
    /// `validUntil` is not a date (`结束日期无效`).
    InvalidEnd,
}

/// Builds the payload of a new license: the master key must match and both dates
/// must read as `YYYY-MM-DD`; the customer and dates are trimmed, and the device
/// lock defaults to on.
pub fn prepare_issue(body: &IssueBody, master_key: &str, license_id: String) -> (r: Result<
    LicensePayload,
    IssueError,
>)
    ensures
        body.master_key@ != master_key@ ==> r == Err::<LicensePayload, IssueError>(
            IssueError::WrongMasterKey,
        ),
        body.master_key@ == master_key@ && date_result(body.valid_from@) is Err ==> r == Err::<
            LicensePayload,
            IssueError,
        >(IssueError::InvalidStart),
        body.master_key@ == master_key@ && date_result(body.valid_from@) is Ok && date_result(
            body.valid_until@,
        ) is Err ==> r == Err::<LicensePayload, IssueError>(IssueError::InvalidEnd),
        r is Ok <==> (body.master_key@ == master_key@ && date_result(body.valid_from@) is Ok
            && date_result(body.valid_until@) is Ok),
        r matches Ok(p) ==> {
            &&& p.v == 1
            &&& p.license_id@ == license_id@
            &&& p.customer@ == trim(body.customer@)
            &&& p.valid_from@ == trim(body.valid_from@)
            &&& p.valid_until@ == trim(body.valid_until@)
            &&& p.device_lock == match body.device_lock {
                Some(b) => b,
                None => true,
            }
        },
{
    let given = chars_of(body.master_key.as_str());
    let expected = chars_of(master_key);
    if !eq(given.as_slice(), expected.as_slice()) {
        return Err(IssueError::WrongMasterKey);
    }
    if parse_date(body.valid_from.as_str()).is_err() {
        return Err(IssueError::InvalidStart);
    }
    if parse_date(body.valid_until.as_str()).is_err() {
        return Err(IssueError::InvalidEnd);
    }
    Ok(
        LicensePayload {
            v: 1,
            license_id,
            customer: trim_string(body.customer.as_str()),
            valid_from: trim_string(body.valid_from.as_str()),
            valid_until: trim_string(body.valid_until.as_str()),
            device_lock: match body.device_lock {
                Some(b) => b,
                None => true,
            },
        },
    )
}

/// Why an activation request was refused.
#[derive(PartialEq, Eq, Debug)]
pub enum ActivationError {
    /// The code is empty (`请填写授权码`).
    EmptyCode,
    /// The code does not decode (`授权码无效`); the detail message is kept.
    InvalidCode(String),
    /// `validFrom` is not a date (`授权起始日期无效`); the detail message is kept.
    InvalidStart(String),
    /// `validUntil` is not a date (`授权结束日期无效`); the detail message is kept.
    InvalidEnd(String),
    /// The license ends before it starts (`结束日期不能早于开始日期`).
    EndBeforeStart,
}

/// The trimmed license code of an activation request, unless it is empty.
pub fn activation_code(body: &ActivateBody) -> (r: Result<String, ActivationError>)
    ensures
        trim(body.license_code@).len() == 0 <==> r is Err,
        r matches Err(e) ==> e == ActivationError::EmptyCode,
        r matches Ok(c) ==> c@ == trim(body.license_code@),
{
    let code = trim_string(body.license_code.as_str());
    if code.as_str().is_empty() {
        return Err(ActivationError::EmptyCode);
    }
    Ok(code)
}

/// What an accepted activation stores.
pub struct ActivationPlan {
    pub license_id: String,
    pub customer: String,
    pub valid_from: i32,
    pub valid_until: i32,
    pub device_lock: i64,
    pub bound_mac: Option<String>,
}

/// Checks a decoded payload for activation on the machine whose MAC is `mac`: both
/// dates must read as `YYYY-MM-DD` and the end may not precede the start; a
/// device-locked license is bound to `mac`.
pub fn plan_activation(payload: &LicensePayload, mac: String) -> (r: Result<
    ActivationPlan,
    ActivationError,
>)
    ensures
        match (date_result(payload.valid_from@), date_result(payload.valid_until@)) {
            (Err(m), _) => r matches Err(ActivationError::InvalidStart(x)) && x@ == m,
            (Ok(_), Err(m)) => r matches Err(ActivationError::InvalidEnd(x)) && x@ == m,
            (Ok(from), Ok(until)) => if until < from {
                r matches Err(ActivationError::EndBeforeStart)
            } else {
                r matches Ok(p) && p.license_id@ == payload.license_id@ && p.customer@
                    == payload.customer@ && p.valid_from == from && p.valid_until == until
                    && p.device_lock == (if payload.device_lock {
                    1int
                } else {
                    0int
                }) && crate::text::opt_view(p.bound_mac) == (if payload.device_lock {
                    Some(mac@)
                } else {
                    None
                })
            },
        },
{
    let from = match parse_date(payload.valid_from.as_str()) {
        Ok(d) => d,
        Err(m) => return Err(ActivationError::InvalidStart(m)),
    };
    let until = match parse_date(payload.valid_until.as_str()) {
        Ok(d) => d,
        Err(m) => return Err(ActivationError::InvalidEnd(m)),
    };
    if until < from {
        return Err(ActivationError::EndBeforeStart);
    }
    Ok(
        ActivationPlan {
            license_id: payload.license_id.clone(),
            customer: payload.customer.clone(),
            valid_from: from,
            valid_until: until,
            device_lock: if payload.device_lock {
                1
            } else {
                0
            },
            bound_mac: if payload.device_lock {
                Some(mac)
            } else {
                None
            },
        },
    )
}

// ---------------------------------------------------------------------------
// Evaluation of the stored license
// ---------------------------------------------------------------------------

/// The active license as stored: dates as day numbers with their `YYYY-MM-DD`
/// text, the largest time observed so far in seconds.
pub struct LicenseRecord {
    pub id: i64,
    pub license_id: String,
    pub customer_name: String,
    pub valid_from: i32,
    pub valid_from_text: String,
    pub valid_until: i32,
    pub valid_until_text: String,
    pub device_lock: i64,
    pub bound_mac: Option<String>,
    pub max_observed_at: Option<i64>,
}

/// One reading of the local clock: the time in seconds and today's day number.
#[derive(Clone, Copy)]
pub struct LicenseClock {
    pub now: i64,
    pub today: i32,
}

/// The outcome reported for the license.
pub struct LicenseStatus {
    pub valid: bool,
    pub reason: String,
    pub reason_code: String,
    pub customer: Option<String>,
    pub valid_from: Option<String>,
    pub valid_until: Option<String>,
    pub device_lock: bool,
    pub bound_mac: Option<String>,
    pub current_mac: String,
    pub days_left: Option<i64>,
    pub license_id: Option<String>,
}

/// The content of a `LicenseStatus`.
pub struct LicenseStatusView {
    pub valid: bool,
    pub reason: Seq<char>,
    pub reason_code: Seq<char>,
    pub customer: Option<Seq<char>>,
    pub valid_from: Option<Seq<char>>,
    pub valid_until: Option<Seq<char>>,
    pub device_lock: bool,
    pub bound_mac: Option<Seq<char>>,
    pub current_mac: Seq<char>,
    pub days_left: Option<i64>,
    pub license_id: Option<Seq<char>>,
}

impl View for LicenseStatus {
    type V = LicenseStatusView;

    open spec fn view(&self) -> LicenseStatusView {
        LicenseStatusView {
            valid: self.valid,
            reason: self.reason@,
            reason_code: self.reason_code@,
            customer: crate::text::opt_view(self.customer),
            valid_from: crate::text::opt_view(self.valid_from),
            valid_until: crate::text::opt_view(self.valid_until),
            device_lock: self.device_lock,
            bound_mac: crate::text::opt_view(self.bound_mac),
            current_mac: self.current_mac@,
            days_left: self.days_left,
            license_id: crate::text::opt_view(self.license_id),
        }
    }
}

/// Which rule decides the license's status.
#[derive(Clone, Copy, PartialEq, Eq, Debug)]
pub enum LicenseVerdict {
    Bypass,
    Missing,
    ClockRollback,
    NotStarted,
    Expired,
    MacMismatch,
    Valid,
}

/// The clock reads more than a day before the largest time observed.
pub open spec fn clock_rolled_back(clock: LicenseClock, rec: LicenseRecord) -> bool {
    rec.max_observed_at matches Some(m) && (clock.now as int) + 86400 < m
}

/// A device-locked license is bound to another MAC (compared in lowercase).
pub open spec fn bound_elsewhere(mac: Seq<char>, rec: LicenseRecord) -> bool {
    &&& rec.device_lock == 1
    &&& rec.bound_mac matches Some(b) && unicode_lower(b@) != mac
}

/// The rule that decides: bypass first, then a missing license, a clock rolled back,
/// a license not yet started, an expired one, one bound to another machine.
pub open spec fn license_verdict(
    bypass: bool,
    mac: Seq<char>,
    clock: LicenseClock,
    row: Option<LicenseRecord>,
) -> LicenseVerdict {
    if bypass {
        LicenseVerdict::Bypass
    } else {
        match row {
            None => LicenseVerdict::Missing,
            Some(rec) => if clock_rolled_back(clock, rec) {
                LicenseVerdict::ClockRollback
            } else if clock.today < rec.valid_from {
                LicenseVerdict::NotStarted
            } else if clock.today > rec.valid_until {
                LicenseVerdict::Expired
            } else if bound_elsewhere(mac, rec) {
                LicenseVerdict::MacMismatch
            } else {
                LicenseVerdict::Valid
            },
        }
    }
}

/// The status reported for each verdict.
pub open spec fn status_for(
    bypass: bool,
    mac: Seq<char>,
    clock: LicenseClock,
    row: Option<LicenseRecord>,
) -> LicenseStatusView {
    let v = license_verdict(bypass, mac, clock, row);
    match v {
        LicenseVerdict::Bypass => LicenseStatusView {
            valid: true,
            reason: "bypass"@,
            reason_code: "bypass"@,
            customer: Some("DEV-BYPASS"@),
            valid_from: None,
            valid_until: None,
            device_lock: false,
            bound_mac: None,
            current_mac: mac,
            days_left: Some(9999),
            license_id: Some("bypass"@),
        },
        LicenseVerdict::Missing => LicenseStatusView {
            valid: false,
            reason: "未激活授权，请导入 License"@,
            reason_code: "missing"@,
            customer: None,
            valid_from: None,
            valid_until: None,
            device_lock: true,
            bound_mac: None,
            current_mac: mac,
            days_left: None,
            license_id: None,
        },
        _ => {
            let rec = row->0;
            let (valid, reason, code) = match v {
                LicenseVerdict::ClockRollback => (
                    false,
                    "检测到系统时间被回拨，授权已锁定"@,
                    "clock_rollback"@,
                ),
                LicenseVerdict::NotStarted => (
                    false,
                    "授权尚未生效（"@ + rec.valid_from_text@ + " 起）"@,
                    "not_started"@,
                ),
                LicenseVerdict::Expired => (
                    false,
                    "授权已于 "@ + rec.valid_until_text@ + " 到期"@,
                    "expired"@,
                ),
                LicenseVerdict::MacMismatch => (
                    false,
                    "设备未授权（已绑定 "@ + (rec.bound_mac->0)@ + "，本机 "@ + mac + "）"@,
                    "mac_mismatch"@,
                ),
                _ => (true, "ok"@, "ok"@),
            };
            let days = (rec.valid_until as int - clock.today as int) as i64;
            LicenseStatusView {
                valid,
                reason,
                reason_code: code,
                customer: Some(rec.customer_name@),
                valid_from: Some(rec.valid_from_text@),
                valid_until: Some(rec.valid_until_text@),
                device_lock: rec.device_lock == 1,
                bound_mac: match v {
                    LicenseVerdict::Valid => match rec.bound_mac {
                        Some(b) => Some(b@),
                        None => Some(mac),
                    },
                    _ => crate::text::opt_view(rec.bound_mac),
                },
                current_mac: mac,
                days_left: match v {
                    LicenseVerdict::ClockRollback | LicenseVerdict::NotStarted => None,
                    LicenseVerdict::Expired => Some(0),
                    _ => Some(days),
                },
                license_id: Some(rec.license_id@),
            }
        },
    }
}

/// The status of the license, with what the evaluation writes back.
pub struct LicenseDecision {
    pub status: LicenseStatus,
    /// Record the current time as observed (the largest observed time is kept).
    pub record_observed: bool,
    /// Bind the license to the current MAC (its first run on a device-locked license).
    pub bind_current_mac: bool,
}

/// The evaluation records the current time: a license is stored, the bypass is off
/// and the clock is not rolled back.
pub open spec fn records_observed(bypass: bool, clock: LicenseClock, row: Option<LicenseRecord>) -> bool {
    match row {
        Some(rec) => !bypass && !clock_rolled_back(clock, rec),
        None => false,
    }
}

/// The evaluation binds the license to this machine: it records the time, the dates
/// hold, and the license is device-locked without a bound MAC.
pub open spec fn binds_mac(bypass: bool, clock: LicenseClock, row: Option<LicenseRecord>) -> bool {
    match row {
        Some(rec) => records_observed(bypass, clock, row) && rec.valid_from <= clock.today
            <= rec.valid_until && rec.device_lock == 1 && rec.bound_mac is None,
        None => false,
    }
}

fn opt_copy(s: &Option<String>) -> (r: Option<String>)
    ensures
        crate::text::opt_view(r) == crate::text::opt_view(*s),
{
    crate::text::copy_opt_string(s)
}

fn concat3(a: &str, b: &str, c: &str) -> (r: String)
    ensures
        r@ == a@ + b@ + c@,
{
    let mut s = String::from_str(a);
    s.append(b);
    s.append(c);
    s
}

/// Evaluates the stored license (`row`, the newest active one) on the machine whose
/// MAC is `current_mac` at one clock reading; `bypass` is the development switch.
/// The clock is taken as rolled back when it reads more than a day before the
/// largest observed time; otherwise that time is updated, and a device-locked
/// license without a bound MAC is bound to this machine once its dates hold.
pub fn evaluate_license(
    bypass: bool,
    current_mac: String,
    clock: LicenseClock,
    row: Option<LicenseRecord>,
) -> (r: LicenseDecision)
    ensures
        r.status@ == status_for(bypass, current_mac@, clock, row),
        r.record_observed == records_observed(bypass, clock, row),
        r.bind_current_mac == binds_mac(bypass, clock, row),
{
    proof {
        reveal_strlit("bypass");
        reveal_strlit("DEV-BYPASS");
    }
    if bypass {
        return LicenseDecision {
            status: LicenseStatus {
                valid: true,
                reason: String::from_str("bypass"),
                reason_code: String::from_str("bypass"),
                customer: Some(String::from_str("DEV-BYPASS")),
                valid_from: None,
                valid_until: None,
                device_lock: false,
                bound_mac: None,
                current_mac,
                days_left: Some(9999),
                license_id: Some(String::from_str("bypass")),
            },
            record_observed: false,
            bind_current_mac: false,
        };
    }
    let rec = match row {
        None => {
            return LicenseDecision {
                status: LicenseStatus {
                    valid: false,
                    reason: String::from_str("未激活授权，请导入 License"),
                    reason_code: String::from_str("missing"),
                    customer: None,
                    valid_from: None,
                    valid_until: None,
                    device_lock: true,
                    bound_mac: None,
                    current_mac,
                    days_left: None,
                    license_id: None,
                },
                record_observed: false,
                bind_current_mac: false,
            };
        },
        Some(rec) => rec,
    };
    let locked = rec.device_lock == 1;
    let rolled = match rec.max_observed_at {
        Some(m) => (clock.now as i128) + 86400 < (m as i128),
        None => false,
    };
    let days: i64 = (rec.valid_until as i64) - (clock.today as i64);
    if rolled {
        return LicenseDecision {
            status: LicenseStatus {
                valid: false,
                reason: String::from_str("检测到系统时间被回拨，授权已锁定"),
                reason_code: String::from_str("clock_rollback"),
                customer: Some(rec.customer_name),
                valid_from: Some(rec.valid_from_text),
                valid_until: Some(rec.valid_until_text),
                device_lock: locked,
                bound_mac: rec.bound_mac,
                current_mac,
                days_left: None,
                license_id: Some(rec.license_id),
            },
            record_observed: false,
            bind_current_mac: false,
        };
    }
    if clock.today < rec.valid_from {
        let reason = concat3("授权尚未生效（", rec.valid_from_text.as_str(), " 起）");
        return LicenseDecision {
            status: LicenseStatus {
                valid: false,
                reason,
                reason_code: String::from_str("not_started"),
                customer: Some(rec.customer_name),
                valid_from: Some(rec.valid_from_text),
                valid_until: Some(rec.valid_until_text),
                device_lock: locked,
                bound_mac: rec.bound_mac,
                current_mac,
                days_left: None,
                license_id: Some(rec.license_id),
            },
            record_observed: true,
            bind_current_mac: false,
        };
    }
    if clock.today > rec.valid_until {
        let reason = concat3("授权已于 ", rec.valid_until_text.as_str(), " 到期");
        return LicenseDecision {
            status: LicenseStatus {
                valid: false,
                reason,
                reason_code: String::from_str("expired"),
                customer: Some(rec.customer_name),
                valid_from: Some(rec.valid_from_text),
                valid_until: Some(rec.valid_until_text),
                device_lock: locked,
                bound_mac: rec.bound_mac,
                current_mac,
                days_left: Some(0),
                license_id: Some(rec.license_id),
            },
            record_observed: true,
            bind_current_mac: false,
        };
    }
    let mut bind = false;
    if locked {
        match &rec.bound_mac {
            None => {
                bind = true;
            },
            Some(bound) => {
                let lower = to_lowercase(bound.as_str());
                let lc = chars_of(lower.as_str());
                let mc = chars_of(current_mac.as_str());
                if !eq(lc.as_slice(), mc.as_slice()) {
                    let mut reason = concat3("设备未授权（已绑定 ", bound.as_str(), "，本机 ");
                    reason.append(current_mac.as_str());
                    reason.append("）");
                    let bound_copy = bound.clone();
                    return LicenseDecision {
                        status: LicenseStatus {
                            valid: false,
                            reason,
                            reason_code: String::from_str("mac_mismatch"),
                            customer: Some(rec.customer_name),
                            valid_from: Some(rec.valid_from_text),
                            valid_until: Some(rec.valid_until_text),
                            device_lock: true,
                            bound_mac: Some(bound_copy),
                            current_mac,
                            days_left: Some(days),
                            license_id: Some(rec.license_id),
                        },
                        record_observed: true,
                        bind_current_mac: false,
                    };
                }
            },
        }
    }
    let bound_mac = match rec.bound_mac {
        Some(b) => Some(b),
        None => Some(current_mac.clone()),
    };
    LicenseDecision {
        status: LicenseStatus {
            valid: true,
            reason: String::from_str("ok"),
            reason_code: String::from_str("ok"),
            customer: Some(rec.customer_name),
            valid_from: Some(rec.valid_from_text),
            valid_until: Some(rec.valid_until_text),
            device_lock: locked,
            bound_mac,
            current_mac,
            days_left: Some(days),
            license_id: Some(rec.license_id),
        },
        record_observed: true,
        bind_current_mac: bind,
    }
}

/// Requests that pass without a valid license: the license endpoints, login, token
/// refresh and the SMS code request.
pub open spec fn allowed_without_license(method: Seq<char>, path: Seq<char>) -> bool {
    crate::text::has_prefix(path, "/api/license"@) || (method == "POST"@ && path == "/mock/login"@)
        || (method == "POST"@ && path == "/mock/updateToken"@) || (method == "GET"@ && path
        == "/mock/getSmsCode"@)
}

/// Whether a request (by its method name and path) may proceed without a valid license.
pub fn path_allowed_without_license(method: &str, path: &str) -> (r: bool)
    ensures
        r == allowed_without_license(method@, path@),
{
    let m = chars_of(method);
    let p = chars_of(path);
    if crate::text::starts_with(p.as_slice(), "/api/license") {
        return true;
    }
    if eq_str(m.as_slice(), "POST") && eq_str(p.as_slice(), "/mock/login") {
        return true;
    }
    if eq_str(m.as_slice(), "POST") && eq_str(p.as_slice(), "/mock/updateToken") {
        return true;
    }
    if eq_str(m.as_slice(), "GET") && eq_str(p.as_slice(), "/mock/getSmsCode") {
        return true;
    }
    false
}

// ---------------------------------------------------------------------------
// Laws
// ---------------------------------------------------------------------------

/// The license record that an activation stores, with the activation time as the
/// largest observed time.
pub open spec fn activated_record(
    plan: ActivationPlan,
    id: i64,
    from_text: String,
    until_text: String,
    now: i64,
) -> LicenseRecord {
    LicenseRecord {
        id,
        license_id: plan.license_id,
        customer_name: plan.customer,
        valid_from: plan.valid_from,
        valid_from_text: from_text,
        valid_until: plan.valid_until,
        valid_until_text: until_text,
        device_lock: plan.device_lock,
        bound_mac: plan.bound_mac,
        max_observed_at: Some(now),
    }
}

/// A license activated on a machine is accepted on that machine exactly while the
/// clock is within its dates and not rolled back past the activation time; a
/// device-locked license activated on one machine is refused on another machine
/// within its dates.
pub proof fn law_activation_binds_device(
    plan: ActivationPlan,
    id: i64,
    from_text: String,
    until_text: String,
    activated_at: i64,
    mac: Seq<char>,
    other_mac: Seq<char>,
    clock: LicenseClock,
)
    requires
        plan.device_lock == 1 ==> crate::text::opt_view(plan.bound_mac) == Some(mac),
        plan.device_lock != 1 ==> plan.bound_mac is None,
        unicode_lower(mac) == mac,
        clock.now as int + 86400 >= activated_at,
    ensures
        ({
            let rec = activated_record(plan, id, from_text, until_text, activated_at);
            &&& status_for(false, mac, clock, Some(rec)).valid <==> (plan.valid_from <= clock.today
                <= plan.valid_until)
            &&& (plan.device_lock == 1 && other_mac != mac && plan.valid_from <= clock.today
                <= plan.valid_until) ==> license_verdict(false, other_mac, clock, Some(rec))
                == LicenseVerdict::MacMismatch
        }),
{
}

/// An evaluation that reports a valid license reports `ok` or `bypass`, and the
/// development bypass always reports a valid license.
pub proof fn law_valid_status_codes(
    bypass: bool,
    mac: Seq<char>,
    clock: LicenseClock,
    row: Option<LicenseRecord>,
)
    ensures
        status_for(bypass, mac, clock, row).valid ==> (status_for(bypass, mac, clock, row).reason_code
            == "ok"@ || status_for(bypass, mac, clock, row).reason_code == "bypass"@),
        bypass ==> status_for(bypass, mac, clock, row).valid,
{
}

} // verus!
