use content_sync::webhook::{
    token_outcome, webhook_answer, webhook_token, Channel, TokenCheck, WebhookEvent,
};

const PUBLIC_KEY: &str = r"-----BEGIN PUBLIC KEY-----
MIIBIjANBgkqhkiG9w0BAQEFAAOCAQ8AMIIBCgKCAQEAsXLeHJSbJW3tHuQtt6aS
C1413OugxUqpt4GuGtiLdj3l3KCWLQetS4Jcrgh0/aCUmDO6pRqxjeQDxKRmO4Lr
aDEaerWPuBYIxyCFv2yR64uTSfVtP08ITs5Ys6p1BQtiTBLbsQSqA6/8sqJtzNOa
zcwssWKMXZanUnpJezV2xUlRwc92PDTeG3IpaCo3vgZSdhMmW3NbxJSbrwh1liO2
f8ZCoBYu3G3skAYEzVMHjAH4jom8h5a0EflVNCltZY0n1Vl3ahl4yd3pWtratigK
3NCTmDtUuBZxVjqV39L3ySrCkbjPqqYmYTxQJ2Zmb/L3PKT5xNs1n1V9jjuLgGVk
FwIDAQAB
-----END PUBLIC KEY-----";

/// Unpadded base64url, as JSON web tokens write their parts.
fn b64url(bytes: &[u8]) -> String {
    const ALPHABET: &[u8] = b"ABCDEFGHIJKLMNOPQRSTUVWXYZabcdefghijklmnopqrstuvwxyz0123456789-_";
    let mut out = String::new();
    for chunk in bytes.chunks(3) {
        let b = [chunk[0], *chunk.get(1).unwrap_or(&0), *chunk.get(2).unwrap_or(&0)];
        let n = ((b[0] as u32) << 16) | ((b[1] as u32) << 8) | (b[2] as u32);
        for k in 0..(chunk.len() + 1) {
            out.push(ALPHABET[((n >> (18 - 6 * k)) & 63) as usize] as char);
        }
    }
    out
}

/// A token in the right shape whose RS256 signature is not one that the
/// app's key made.
fn forged_token(payload: &str) -> String {
    let header = b64url(br#"{"alg":"RS256","typ":"JWT"}"#);
    let body = b64url(payload.as_bytes());
    let signature = b64url(&[7u8; 256]);
    format!("{}.{}.{}", header, body, signature)
}

fn read_event(data: &str) -> Result<WebhookEvent, String> {
    let v: serde_json::Value = serde_json::from_str(data).map_err(|e| format!("{:?}", e))?;
    match (v.get("eventType").and_then(|t| t.as_str()), v.get("data").and_then(|t| t.as_str())) {
        (Some(t), Some(d)) => Ok(WebhookEvent { event_type: t.to_string(), data: d.to_string() }),
        _ => Err("missing field".to_string()),
    }
}

#[test]
fn base64url_parts() {
    assert_eq!(b64url(b"{}"), "e30");
    assert_eq!(b64url(b"abc"), "YWJj");
}

#[test]
fn a_forged_token_gets_400() {
    let t = forged_token(r#"{"data":"{}","exp":4000000000}"#);
    let r = webhook_answer(PUBLIC_KEY.as_bytes(), &t, read_event);
    assert_eq!((r.status, r.channel), (400, Channel::Stderr));
    assert!(r.body.starts_with("Error decoding raw payload: "), "{}", r.body);
    assert!(r.body.contains("InvalidSignature"), "{}", r.body);
    assert!(webhook_token(PUBLIC_KEY.as_bytes(), &t).is_err());
}

#[test]
fn garbage_is_no_token() {
    let r = webhook_answer(PUBLIC_KEY.as_bytes(), "not.a.token", read_event);
    assert_eq!((r.status, r.channel), (400, Channel::Stderr));
}

#[test]
fn a_key_that_does_not_decode_gets_500() {
    let t = forged_token(r#"{"data":"{}"}"#);
    let r = webhook_answer(b"no key here", &t, read_event);
    assert_eq!((r.status, r.channel), (500, Channel::Stderr));
    assert!(r.body.starts_with("Error decoding public key: "), "{}", r.body);
    let refused = webhook_token(b"no key here", &t).err().unwrap();
    assert_eq!(refused.status, 500);
}

#[test]
fn a_verified_token_gives_its_data() {
    let data = token_outcome(TokenCheck::Verified { data: "{\"eventType\":\"X\"}".to_string() });
    assert_eq!(data.ok(), Some("{\"eventType\":\"X\"}".to_string()));
}

#[test]
fn a_verified_token_without_data_gets_400() {
    let r = token_outcome(TokenCheck::ClaimMissing).err().unwrap();
    assert_eq!((r.status, r.body.as_str(), r.channel), (400, "Error decoding raw payload: missing field `data`", Channel::Stderr));
}

#[test]
fn refused_keys_and_payloads_keep_their_error_text() {
    let r = token_outcome(TokenCheck::KeyRejected { detail: "InvalidKeyFormat".to_string() }).err().unwrap();
    assert_eq!((r.status, r.body.as_str()), (500, "Error decoding public key: InvalidKeyFormat"));
    let r = token_outcome(TokenCheck::PayloadRejected { detail: "ExpiredSignature".to_string() }).err().unwrap();
    assert_eq!((r.status, r.body.as_str()), (400, "Error decoding raw payload: ExpiredSignature"));
}
