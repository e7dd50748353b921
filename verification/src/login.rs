//! Bilibili QR-code login: the addresses it uses and how it reads the
//! passport API's answers.

use vstd::prelude::*;
use vstd::utf8::encode_utf8;
use crate::text::{concat, to_owned_string, opt_view};
use crate::url_encoding::{percent_encoded, url_encode};

verus! {

/// A QR code to scan for login.
#[derive(Debug, Clone)]
pub struct QrcodeResult {
    /// The address the QR code holds.
    pub url: String,
    /// The key that polling asks about.
    pub qrcode_key: String,
    /// An image of the QR code.
    pub qrcode_image: String,
}

/// Progress of a QR-code login.
#[derive(Debug, Clone)]
pub enum LoginStatus {
    /// Not scanned, or scanned and not confirmed.
    Waiting,
    /// The QR code expired.
    Expired,
    /// Logged in; the address that carries the login, and the refresh token.
    Success { url: String, refresh_token: String },
    /// The poll failed.
    Failed,
}

/// What the logic reads of a poll answer: `data.code` when an integer,
/// `data.url` and `data.refresh_token` when strings.
#[derive(Debug, Clone)]
pub struct PollReply {
    pub code: Option<i64>,
    pub url: Option<String>,
    pub refresh_token: Option<String>,
}

/// Why a QR code could not be had.
#[derive(Debug, Clone)]
pub enum LoginError {
    /// The API answered with a code other than 0; its `message` as JSON text.
    Api { message: String },
}

/// The passport API that hands out QR codes.
pub open spec fn qrcode_generate_api() -> Seq<char> {
    "https://passport.bilibili.com/x/passport-login/web/qrcode/generate"@
}

/// The passport API that reports on a QR code, without its key.
pub open spec fn qrcode_poll_api() -> Seq<char> {
    "https://passport.bilibili.com/x/passport-login/web/qrcode/poll?qrcode_key="@
}

/// The service that draws QR codes, without the data.
pub open spec fn qrcode_image_service() -> Seq<char> {
    "https://api.qrserver.com/v1/create-qr-code/?size=200x200&data="@
}

/// The characters of an optional string, empty where it is absent.
pub open spec fn text_or_empty(o: Option<String>) -> Seq<char> {
    match o {
        Some(s) => s@,
        None => Seq::<char>::empty(),
    }
}

/// The poll code of an answer, -1 where it carries none.
pub open spec fn poll_code(reply: PollReply) -> i64 {
    match reply.code {
        Some(c) => c,
        None => -1i64,
    }
}

/// `status` is what the poll answer `reply` says; `None` where the request or
/// the reading of its body failed.
pub open spec fn poll_status_is(status: LoginStatus, reply: Option<PollReply>) -> bool {
    match reply {
        None => status is Failed,
        Some(p) => {
            let c = poll_code(p);
            if c == 0 {
                status matches LoginStatus::Success { url, refresh_token } && url@ == text_or_empty(
                    p.url,
                ) && refresh_token@ == text_or_empty(p.refresh_token)
            } else if c == 86038 {
                status is Expired
            } else if c == 86101 || c == 86090 {
                status is Waiting
            } else {
                status is Failed
            }
        },
    }
}

/// The address of the QR-code generator.
pub fn qrcode_generate_url() -> (u: String)
    ensures
        u@ == qrcode_generate_api(),
{
    to_owned_string("https://passport.bilibili.com/x/passport-login/web/qrcode/generate")
}

/// The address that reports on the QR code `qrcode_key`.
pub fn poll_url(qrcode_key: &str) -> (u: String)
    ensures
        u@ == qrcode_poll_api() + qrcode_key@,
{
    concat("https://passport.bilibili.com/x/passport-login/web/qrcode/poll?qrcode_key=", qrcode_key)
}

/// The address of an image of a QR code that holds `qrcode_url`.
pub fn qrcode_image_url(qrcode_url: &str) -> (u: String)
    ensures
        u@ == qrcode_image_service() + percent_encoded(encode_utf8(qrcode_url@)),
{
    let enc = url_encode(qrcode_url);
    concat("https://api.qrserver.com/v1/create-qr-code/?size=200x200&data=", enc.as_str())
}

/// The QR code from the generator's answer: its `code`, its `message` as
/// JSON text, and `data.url` and `data.qrcode_key`.
pub fn qrcode_from_reply(code: Option<i64>, message: String, url: Option<String>, key: Option<String>) -> (r:
    Result<QrcodeResult, LoginError>)
    requires
        code == Some(0i64) ==> url is Some && key is Some,
    ensures
        code != Some(0i64) ==> (r matches Err(LoginError::Api { message: m }) && m == message),
        code == Some(0i64) ==> (r matches Ok(q) && Some(q.url@) == opt_view(url) && Some(q.qrcode_key@)
            == opt_view(key) && q.qrcode_image@ == qrcode_image_service() + percent_encoded(
            encode_utf8(q.url@),
        )),
{
    if code != Some(0i64) {
        return Err(LoginError::Api { message });
    }
    let u = url.unwrap();
    let k = key.unwrap();
    let image = qrcode_image_url(u.as_str());
    Ok(QrcodeResult { url: u, qrcode_key: k, qrcode_image: image })
}

/// The login status a poll answer reports: code 0 is success, 86038 an
/// expired code, 86101 and 86090 waiting, anything else a failure;
/// `reply` is `None` where the request or the reading of its body failed.
pub fn login_status_from_poll(reply: Option<PollReply>) -> (s: LoginStatus)
    ensures
        poll_status_is(s, reply),
{
    match reply {
        None => LoginStatus::Failed,
        Some(p) => {
            let c = match p.code {
                Some(c) => c,
                None => -1,
            };
            if c == 0 {
                let url = match p.url {
                    Some(u) => u,
                    None => String::new(),
                };
                let refresh_token = match p.refresh_token {
                    Some(t) => t,
                    None => String::new(),
                };
                LoginStatus::Success { url, refresh_token }
            } else if c == 86038 {
                LoginStatus::Expired
            } else if c == 86101 || c == 86090 {
                LoginStatus::Waiting
            } else {
                LoginStatus::Failed
            }
        },
    }
}

} // verus!
