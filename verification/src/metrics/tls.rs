//! TLS handshake timing and certificate expiry.
//!
//! A link that connects fast and negotiates slowly is a real and specific complaint. Expiry
//! is the other kind of fault entirely: nothing is slow, nothing is broken, and on a known
//! date everything stops at once.

use vstd::prelude::*;

use crate::metrics::Sample;
use crate::units::Reading;

verus! {

/// The `notAfter` that `x509_parser` reads from the bytes of a certificate, in seconds since
/// the Unix epoch, where it reads a certificate there.
pub uninterp spec fn x509_not_after(der: Seq<u8>) -> Option<i64>;

/// Calls [`x509_parser::parse_x509_certificate`] and takes the end of the validity period of
/// the certificate it returns, as a Unix timestamp. The result is a function of the bytes:
/// [`x509_not_after`] names it. Which bytes are a certificate is left to the parser.
#[verifier::external_body]
fn parse_not_after(der: &[u8]) -> (r: Option<i64>)
    ensures
        r == x509_not_after(der@),
{
    match x509_parser::parse_x509_certificate(der) {
        Ok((_, cert)) => Some(cert.validity().not_after.timestamp()),
        Err(_) => None,
    }
}

/// The `notAfter` of a DER-encoded certificate, as a Unix timestamp.
///
/// `None` when the bytes are not a certificate at all: a truncated read or a server speaking
/// something other than TLS. Unparseable is not the same as expired.
pub fn cert_expiry_secs(der: &[u8]) -> (r: Option<i64>)
    ensures
        r == x509_not_after(der@),
{
    parse_not_after(der)
}

/// `n / d` rounded towards zero.
pub open spec fn toward_zero(n: int, d: int) -> int {
    if n >= 0 {
        n / d
    } else {
        -((-n) / d)
    }
}

/// Whole days from `now` until `expiry`, rounded towards zero.
///
/// Negative once the certificate has expired, which is deliberately representable: a
/// dashboard that clamps at zero cannot tell you *how long* something has been broken.
pub fn days_until(expiry_secs: i64, now_secs: i64) -> (d: i64)
    ensures
        d == toward_zero(expiry_secs - now_secs, 86_400),
{
    let left: i128 = expiry_secs as i128 - now_secs as i128;
    if left >= 0 {
        (left / 86_400) as i64
    } else {
        (-((-left) / 86_400)) as i64
    }
}

/// What a certificate with the given end of validity has left, in whole days.
pub open spec fn days_left(expiry: Option<i64>, now_secs: i64) -> Option<i64> {
    match expiry {
        Some(e) => Some(toward_zero(e - now_secs, 86_400) as i64),
        None => None,
    }
}

/// The reading that one negotiation yields: what the handshake took, and what the leaf
/// certificate had left at `now_secs`.
pub fn tls_sample(
    endpoint: String,
    handshake_ms: Option<Reading>,
    expiry: Option<i64>,
    now_secs: i64,
) -> (s: Sample)
    ensures
        s == (Sample::Tls {
            endpoint,
            handshake_ms,
            expires_in_days: days_left(expiry, now_secs),
        }),
{
    let expires_in_days = match expiry {
        Some(e) => Some(days_until(e, now_secs)),
        None => None,
    };
    Sample::Tls { endpoint, handshake_ms, expires_in_days }
}

/// The expiry of the leaf certificate of a chain: the first one's, whose end takes the site
/// down.
pub fn leaf_expiry_secs(chain: &Vec<Vec<u8>>) -> (r: Option<i64>)
    ensures
        r == (if chain@.len() > 0 {
            x509_not_after(chain@[0]@)
        } else {
            None
        }),
{
    if chain.len() > 0 {
        cert_expiry_secs(&chain[0])
    } else {
        None
    }
}

/// A certificate that is past its end by a day or more counts backwards: how long it has
/// been expired is not hidden.
pub proof fn law_expired_certificates_count_backwards(expiry_secs: i64, now_secs: i64, days: int)
    requires
        days >= 0,
        now_secs == expiry_secs + days * 86_400,
    ensures
        toward_zero(expiry_secs - now_secs, 86_400) == -days,
{
}

/// Well-known HTTPS hosts on separate networks, so one operator's bad day does not read as
/// "TLS is broken": label, host name and port.
pub fn default_endpoints() -> (v: Vec<(String, String, u16)>)
    ensures
        v@.len() == 2,
        v@[0].0@ == "cloudflare"@ && v@[0].1@ == "cloudflare.com"@ && v@[0].2 == 443,
        v@[1].0@ == "google"@ && v@[1].1@ == "www.google.com"@ && v@[1].2 == 443,
{
    let mut v: Vec<(String, String, u16)> = Vec::new();
    v.push(("cloudflare".to_owned(), "cloudflare.com".to_owned(), 443));
    v.push(("google".to_owned(), "www.google.com".to_owned(), 443));
    v
}

/// The days left are whole days, cut towards the present: a certificate with less than a day
/// left, or less than a day gone, has none; with a day or more left, at least that many whole
/// days really remain and one more does not; and longer validity never means fewer days.
pub proof fn law_days_left_are_whole_days(expiry: i64, later: i64, now_secs: i64)
    ensures
        days_left(None, now_secs) is None,
        days_left(Some(expiry), now_secs) matches Some(d) && {
            &&& expiry >= now_secs ==> d >= 0 && now_secs + d * 86_400 <= expiry < now_secs + (d
                + 1) * 86_400
            &&& expiry < now_secs ==> d <= 0 && now_secs + (d - 1) * 86_400 < expiry <= now_secs + d
                * 86_400
        },
        expiry <= later ==> days_left(Some(expiry), now_secs)->0 <= days_left(
            Some(later),
            now_secs,
        )->0,
{
}

} // verus!
