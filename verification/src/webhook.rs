//! The app webhook: checking the signed token of a request against the app's
//! public key, and the answer (HTTP status, body and report) for each way in
//! which reading the signed event can end.
use vstd::prelude::*;
use vstd::string::*;

verus! {

/// An event that the webhook was sent.
pub struct WebhookEvent {
    pub event_type: String,
    pub data: String,
}

/// How reading the request ended: at the public key, at the token, at the
/// event JSON (each with the `Debug` text of the error), or with an event.
pub enum WebhookInput {
    KeyRejected { detail: String },
    PayloadRejected { detail: String },
    EventUnreadable { detail: String },
    Event { event: WebhookEvent },
}

/// Where the report of a request goes.
#[derive(PartialEq, Eq, Structural, Debug, Clone, Copy)]
pub enum Channel {
    /// Standard error.
    Stderr,
    /// The error log, as the `Debug` text of the report.
    ErrorLog,
    /// The info log.
    InfoLog,
    /// The warning log.
    WarnLog,
}

/// The answer to a webhook request.
pub struct WebhookReply {
    pub status: u16,
    pub body: String,
    pub channel: Channel,
    pub report: String,
}

/// The event type whose events the webhook handles.
pub open spec fn app_installed() -> Seq<char> {
    "AppInstalled"@
}

pub open spec fn reply_spec(input: WebhookInput) -> (u16, Seq<char>, Channel, Seq<char>) {
    match input {
        WebhookInput::KeyRejected { detail } => {
            let m = "Error decoding public key: "@ + detail@;
            (500, m, Channel::Stderr, m)
        },
        WebhookInput::PayloadRejected { detail } => {
            let m = "Error decoding raw payload: "@ + detail@;
            (400, m, Channel::Stderr, m)
        },
        WebhookInput::EventUnreadable { detail } => {
            let m = "Error parsing event: "@ + detail@;
            (400, m, Channel::ErrorLog, m)
        },
        WebhookInput::Event { event } => if event.event_type@ == app_installed() {
            (
                200,
                Seq::empty(),
                Channel::InfoLog,
                "AppInstalled event received with data: "@ + event.data@,
            )
        } else {
            (
                200,
                Seq::empty(),
                Channel::WarnLog,
                "Received unknown event type: "@ + event.event_type@,
            )
        },
    }
}

/// The answer to a request that ended as `input`: 500 when the public key
/// does not decode, 400 when the token or the event does not, with the
/// error as the body; otherwise 200 with an empty body, and the event
/// reported to the info log when it is an `AppInstalled` event, to the
/// warning log when it is of any other type.
pub fn webhook_reply(input: WebhookInput) -> (res: WebhookReply)
    ensures
        (res.status, res.body@, res.channel, res.report@) == reply_spec(input),
        res.status == 200 <==> input is Event,
        res.status == 500 <==> input is KeyRejected,
        res.status == 400 <==> input is PayloadRejected || input is EventUnreadable,
        res.channel == Channel::Stderr <==> input is KeyRejected || input is PayloadRejected,
        res.channel == Channel::ErrorLog <==> input is EventUnreadable,
        input is Event ==> res.body@.len() == 0,
        input matches WebhookInput::Event { event } ==> (res.channel == Channel::InfoLog
            <==> event.event_type@ == "AppInstalled"@),
        input matches WebhookInput::KeyRejected { detail } ==> res.body@
            == "Error decoding public key: "@ + detail@,
        input matches WebhookInput::PayloadRejected { detail } ==> res.body@
            == "Error decoding raw payload: "@ + detail@,
        input matches WebhookInput::EventUnreadable { detail } ==> res.body@
            == "Error parsing event: "@ + detail@,
        !(input is Event) ==> res.report@ == res.body@,
{
    match input {
        WebhookInput::KeyRejected { detail } => {
            let mut m = String::from_str("Error decoding public key: ");
            m.append(detail.as_str());
            let report = m.clone();
            WebhookReply { status: 500, body: m, channel: Channel::Stderr, report }
        },
        WebhookInput::PayloadRejected { detail } => {
            let mut m = String::from_str("Error decoding raw payload: ");
            m.append(detail.as_str());
            let report = m.clone();
            WebhookReply { status: 400, body: m, channel: Channel::Stderr, report }
        },
        WebhookInput::EventUnreadable { detail } => {
            let mut m = String::from_str("Error parsing event: ");
            m.append(detail.as_str());
            let report = m.clone();
            WebhookReply { status: 400, body: m, channel: Channel::ErrorLog, report }
        },
        WebhookInput::Event { event } => {
            let wanted = String::from_str("AppInstalled");
            if event.event_type == wanted {
                let mut m = String::from_str("AppInstalled event received with data: ");
                m.append(event.data.as_str());
                WebhookReply {
                    status: 200,
                    body: String::new(),
                    channel: Channel::InfoLog,
                    report: m,
                }
            } else {
                let mut m = String::from_str("Received unknown event type: ");
                m.append(event.event_type.as_str());
                WebhookReply {
                    status: 200,
                    body: String::new(),
                    channel: Channel::WarnLog,
                    report: m,
                }
            }
        },
    }
}

/// Whether `DecodingKey::from_rsa_pem` accepts `pem` as an RSA public key.
pub uninterp spec fn rsa_pem_accepted(pem: Seq<u8>) -> bool;

/// Whether `token` is a JSON web token whose header names RS256 and whose
/// RS256 signature verifies under the RSA public key in `pem`.
pub uninterp spec fn rs256_signed(token: Seq<char>, pem: Seq<u8>) -> bool;

/// The string that the `data` member of the token's JSON payload holds, if
/// it holds a string.
pub uninterp spec fn data_claim(token: Seq<char>) -> Option<Seq<char>>;

/// The expiry that the `exp` member of the token's JSON payload states, as
/// jsonwebtoken reads it (a whole number of seconds after the Unix epoch),
/// if it is there and reads.
pub uninterp spec fn exp_claim(token: Seq<char>) -> Option<u64>;

/// How checking a token ended.
pub enum TokenCheck {
    /// The public key did not decode; `Debug` text of the error.
    KeyRejected { detail: String },
    /// The token did not decode, verify or validate; `Debug` text of the error.
    PayloadRejected { detail: String },
    /// The token verified, but its payload has no string `data` member.
    ClaimMissing,
    /// The token verified and validated; its `data` member.
    Verified { data: String },
}

/// How the `Debug` text of a `jsonwebtoken::errors::Error` begins: the type
/// is the tuple struct `Error(Box<ErrorKind>)` with a derived `Debug`.
pub open spec fn error_debug_prefix() -> Seq<char> {
    "Error("@
}

/// `jsonwebtoken::DecodingKey::from_rsa_pem(pem)`, then
/// `jsonwebtoken::decode` with `Validation::new(Algorithm::RS256)` and the
/// claims read as JSON, and their `data` member picked. `decode` checks the
/// signature, then the claims' expiry against the current time, so the
/// contract states only what holds of every outcome: the key is rejected
/// exactly when it does not decode, a token whose signature does not verify
/// is rejected, and a token that passes the signature check and the claim
/// checks verified and carries an expiry (`Validation::new` requires the
/// `exp` claim), and, when accepted, the data returned. Whether that expiry
/// is past the current time is left unsaid. The claims are read as JSON and
/// `data` picked from them, so a verified token without a string `data` is
/// told apart only after the expiry check. The detail of a rejection is the
/// `Debug` text of the crate's error, so it begins with `Error(`. `decode`
/// reads the clock and panics if it is set before 1970.
#[verifier::external_body]
pub(crate) fn check_rs256_token(pem: &[u8], token: &str) -> (res: TokenCheck)
    ensures
        (res is KeyRejected) <==> !rsa_pem_accepted(pem@),
        rsa_pem_accepted(pem@) && !rs256_signed(token@, pem@) ==> res is PayloadRejected,
        res is ClaimMissing ==> rs256_signed(token@, pem@) && exp_claim(token@) is Some
            && data_claim(token@) is None,
        res matches TokenCheck::Verified { data } ==> rs256_signed(token@, pem@) && exp_claim(
            token@,
        ) is Some && data_claim(token@) == Some(data@),
        res matches TokenCheck::KeyRejected { detail } ==> error_debug_prefix().is_prefix_of(
            detail@,
        ),
        res matches TokenCheck::PayloadRejected { detail } ==> error_debug_prefix().is_prefix_of(
            detail@,
        ),
{
    let key = match jsonwebtoken::DecodingKey::from_rsa_pem(pem) {
        Ok(k) => k,
        Err(e) => return TokenCheck::KeyRejected { detail: format!("{:?}", e) },
    };
    let validation = jsonwebtoken::Validation::new(jsonwebtoken::Algorithm::RS256);
    match jsonwebtoken::decode::<serde_json::Value>(token, &key, &validation) {
        Err(e) => TokenCheck::PayloadRejected { detail: format!("{:?}", e) },
        Ok(decoded) => match decoded.claims.get("data") {
            Some(serde_json::Value::String(data)) => TokenCheck::Verified { data: data.clone() },
            _ => TokenCheck::ClaimMissing,
        },
    }
}

/// What a request gets when its token check ended as `check`: the data of a
/// verified token, or the answer that refuses the request.
pub open spec fn token_outcome_spec(check: TokenCheck) -> Result<
    Seq<char>,
    (u16, Seq<char>, Channel, Seq<char>),
> {
    match check {
        TokenCheck::KeyRejected { detail } => Err(
            reply_spec(WebhookInput::KeyRejected { detail }),
        ),
        TokenCheck::PayloadRejected { detail } => Err(
            reply_spec(WebhookInput::PayloadRejected { detail }),
        ),
        TokenCheck::ClaimMissing => {
            let m = "Error decoding raw payload: "@ + "missing field `data`"@;
            Err((400, m, Channel::Stderr, m))
        },
        TokenCheck::Verified { data } => Ok(data@),
    }
}

pub open spec fn reply_view(r: WebhookReply) -> (u16, Seq<char>, Channel, Seq<char>) {
    (r.status, r.body@, r.channel, r.report@)
}

pub open spec fn token_result_view(r: Result<String, WebhookReply>) -> Result<
    Seq<char>,
    (u16, Seq<char>, Channel, Seq<char>),
> {
    match r {
        Ok(d) => Ok(d@),
        Err(reply) => Err(reply_view(reply)),
    }
}

/// The data of a verified token, or the answer that refuses the request.
pub fn token_outcome(check: TokenCheck) -> (res: Result<String, WebhookReply>)
    ensures
        token_result_view(res) == token_outcome_spec(check),
{
    match check {
        TokenCheck::KeyRejected { detail } => Err(
            webhook_reply(WebhookInput::KeyRejected { detail }),
        ),
        TokenCheck::PayloadRejected { detail } => Err(
            webhook_reply(WebhookInput::PayloadRejected { detail }),
        ),
        TokenCheck::ClaimMissing => Err(
            webhook_reply(
                WebhookInput::PayloadRejected { detail: String::from_str("missing field `data`") },
            ),
        ),
        TokenCheck::Verified { data } => Ok(data),
    }
}

pub open spec fn key_refusal_prefix() -> Seq<char> {
    "Error decoding public key: "@
}

pub open spec fn payload_refusal_prefix() -> Seq<char> {
    "Error decoding raw payload: "@
}

/// The answer that refuses a request at its token: reported on standard
/// error as it is sent, with 500 and the key error when the key does not
/// decode, or with 400 and the token error.
pub open spec fn is_refusal(r: WebhookReply) -> bool {
    &&& r.channel == Channel::Stderr
    &&& r.report@ == r.body@
    &&& r.status == 500 ==> r.body@.take(key_refusal_prefix().len() as int)
        == key_refusal_prefix()
    &&& r.status == 400 ==> r.body@.take(payload_refusal_prefix().len() as int)
        == payload_refusal_prefix()
    &&& r.status == 500 || r.status == 400
}

/// What the webhook makes of what its event reader gave back.
pub open spec fn event_input(read: Result<WebhookEvent, String>) -> WebhookInput {
    match read {
        Ok(event) => WebhookInput::Event { event },
        Err(detail) => WebhookInput::EventUnreadable { detail },
    }
}

/// Checks the token `body` of a request against the public key `pem`: the
/// data of the token when it verifies and validates, else the answer that
/// refuses the request, 500 when the key does not decode and 400 otherwise.
/// A token that carries data is refused only with the token's own error,
/// never as one that lacks data.
pub fn webhook_token(pem: &[u8], body: &str) -> (res: Result<String, WebhookReply>)
    ensures
        (res is Err && res->Err_0.status == 500) <==> !rsa_pem_accepted(pem@),
        res is Err ==> res->Err_0.status == 500 || res->Err_0.status == 400,
        rsa_pem_accepted(pem@) && !rs256_signed(body@, pem@) ==> res is Err
            && res->Err_0.status == 400,
        res is Err ==> is_refusal(res->Err_0),
        res is Ok ==> rs256_signed(body@, pem@) && exp_claim(body@) is Some && data_claim(body@)
            == Some(res->Ok_0@),
        res is Err && res->Err_0.status == 400 && data_claim(body@) is Some ==> (
        payload_refusal_prefix() + error_debug_prefix()).is_prefix_of(res->Err_0.body@),
{
    let check = check_rs256_token(pem, body);
    let ghost checked = check;
    let res = token_outcome(check);
    proof {
        if res is Err {
            let r = res->Err_0;
            match checked {
                TokenCheck::KeyRejected { detail } => {
                    assert(r.body@ == key_refusal_prefix() + detail@);
                    assert(r.body@.take(key_refusal_prefix().len() as int) =~= key_refusal_prefix());
                },
                TokenCheck::PayloadRejected { detail } => {
                    assert(r.body@ == payload_refusal_prefix() + detail@);
                    assert(r.body@.take(payload_refusal_prefix().len() as int)
                        =~= payload_refusal_prefix());
                    let p = payload_refusal_prefix() + error_debug_prefix();
                    assert(p =~= r.body@.subrange(0, p.len() as int));
                },
                TokenCheck::ClaimMissing => {
                    assert(r.body@ == payload_refusal_prefix() + "missing field `data`"@);
                    assert(r.body@.take(payload_refusal_prefix().len() as int)
                        =~= payload_refusal_prefix());
                },
                TokenCheck::Verified { .. } => {},
            }
        }
    }
    res
}

/// The answer to a webhook request with the token `body`, checked against
/// the public key `pem`, whose data `read_event` reads as an event (or an
/// error text). A request refused at its token is answered on standard
/// error: 500 when the key does not decode, 400 otherwise (always when the
/// token is not signed under the key). Any other answer is that of the
/// event that `read_event` gave back for the token's data: 200 for an event,
/// 400 with the reader's error for none. So only a token that verifies under
/// the key, carries an expiry and data, gets a 200.
pub fn webhook_answer<F: Fn(&str) -> Result<WebhookEvent, String>>(
    pem: &[u8],
    body: &str,
    read_event: F,
) -> (res: WebhookReply)
    requires
        forall|data: &str| #[trigger] read_event.requires((data,)),
    ensures
        res.status == 500 <==> !rsa_pem_accepted(pem@),
        rsa_pem_accepted(pem@) && !rs256_signed(body@, pem@) ==> res.status == 400
            && res.channel == Channel::Stderr,
        res.channel == Channel::Stderr ==> is_refusal(res),
        res.channel != Channel::Stderr ==> {
            &&& rs256_signed(body@, pem@)
            &&& exp_claim(body@) is Some
            &&& data_claim(body@) is Some
            &&& exists|d: &str, r: Result<WebhookEvent, String>|
                d@ == data_claim(body@)->0 && #[trigger] read_event.ensures((d,), r) && reply_view(
                    res,
                ) == reply_spec(event_input(r))
        },
        res.status == 200 ==> rs256_signed(body@, pem@) && data_claim(body@) is Some,
        res.status == 200 || res.status == 400 || res.status == 500,
        res.channel == Channel::Stderr && res.status == 400 && data_claim(body@) is Some ==> (
        payload_refusal_prefix() + error_debug_prefix()).is_prefix_of(res.body@),
{
    match webhook_token(pem, body) {
        Err(reply) => reply,
        Ok(data) => {
            let d = data.as_str();
            let read = read_event(d);
            let ghost r = read;
            let input = match read {
                Ok(event) => WebhookInput::Event { event },
                Err(detail) => WebhookInput::EventUnreadable { detail },
            };
            assert(input == event_input(r));
            let reply = webhook_reply(input);
            assert(read_event.ensures((d,), r));
            assert(reply_view(reply) == reply_spec(event_input(r)));
            reply
        },
    }
}

} // verus!
