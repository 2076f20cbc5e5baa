//! TLS certificate expiry: the arithmetic over a certificate's
//! remaining lifetime, once a handshake has measured it. The handshake
//! itself happens outside; this module owns what is derived from the
//! measured seconds.

use vstd::prelude::*;

verus! {

/// Why an expiry check failed.
pub enum SslError {
    /// The peer presented no certificate.
    NoCert,
    /// The TLS handshake failed.
    Handshake(String),
    /// An I/O error, carried as text.
    Io(String),
    /// A TLS library error, carried as text.
    Ssl(String),
}

impl SslError {
    /// The error's text.
    pub fn message(&self) -> (r: String)
        ensures
            match self {
                SslError::NoCert => r@ == "Certificate not found"@,
                SslError::Handshake(m) => r@ == "HandshakeError: "@ + m@,
                SslError::Io(m) => r@ == m@,
                SslError::Ssl(m) => r@ == m@,
            },
    {
        match self {
            SslError::NoCert => String::from_str("Certificate not found"),
            SslError::Handshake(m) => String::from_str("HandshakeError: ").concat(m.as_str()),
            SslError::Io(m) => m.clone(),
            SslError::Ssl(m) => m.clone(),
        }
    }
}

/// How many whole days `secs` seconds are, rounded toward zero.
pub open spec fn days_of_secs(secs: int) -> int {
    if secs >= 0 {
        secs / 86400
    } else {
        -((-secs) / 86400)
    }
}

/// A certificate's measured remaining lifetime: seconds until expiry
/// (negative once expired), and the expiry instant in seconds since the
/// Unix epoch.
pub struct SslExpiration(pub i32, pub i64);

impl SslExpiration {
    /// The remaining lifetime a handshake measured: the certificate
    /// expires `days` days and `secs` seconds from `now`. The total must
    /// fit the second counter.
    pub fn from_diff(days: i32, secs: i32, now: i64) -> (r: SslExpiration)
        requires
            i32::MIN <= days * 86400 + secs <= i32::MAX,
            i64::MIN <= now + days * 86400 + secs <= i64::MAX,
        ensures
            r.0 == days * 86400 + secs,
            r.1 == now + days * 86400 + secs,
    {
        let total64: i64 = days as i64 * 86400 + secs as i64;
        let total: i32 = total64 as i32;
        SslExpiration(total, now + total64)
    }

    /// How many seconds until the certificate expires; negative once it
    /// has.
    pub fn secs(&self) -> (r: i32)
        ensures
            r == self.0,
    {
        self.0
    }

    /// When the certificate expires, in seconds since the Unix epoch.
    pub fn date(&self) -> (r: i64)
        ensures
            r == self.1,
    {
        self.1
    }

    /// How many whole days until the certificate expires; negative once
    /// it has, rounded toward zero.
    pub fn days(&self) -> (r: i32)
        requires
            self.0 > i32::MIN,
        ensures
            r == days_of_secs(self.0 as int),
    {
        if self.0 >= 0 {
            self.0 / 60 / 60 / 24
        } else {
            -((-self.0) / 60 / 60 / 24)
        }
    }

    /// Whether the certificate has expired: strictly negative remaining
    /// seconds.
    pub fn is_expired(&self) -> (r: bool)
        ensures
            r == (self.0 < 0),
    {
        self.0 < 0
    }
}

} // verus!
