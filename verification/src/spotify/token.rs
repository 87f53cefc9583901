use vstd::prelude::*;

verus! {

/// A point in time: whole seconds since the Unix epoch, and the nanoseconds
/// past that second. The seconds are held in 128 bits, so that any lifetime
/// a server declares can be added to any reading of the clock.
#[derive(Debug, Clone, Copy, PartialEq, Eq, Structural)]
pub struct Instant {
    pub secs: i128,
    pub nanos: u32,
}

/// An access token and the instant after which it is no longer used.
#[derive(Debug, Clone, PartialEq, Eq)]
pub struct Token {
    pub access_token: String,
    pub expiration: Instant,
}

/// What the service grants: a token, and its lifetime in seconds.
#[derive(Debug, Clone, PartialEq, Eq)]
pub struct TokenData {
    pub access_token: String,
    pub expires_in: u64,
}

impl Instant {
    /// Whether this instant is one that the clock can show: its seconds fit
    /// in 64 bits.
    pub open spec fn is_reading(&self) -> bool {
        i64::MIN <= self.secs <= i64::MAX
    }

    /// Whether this instant is strictly earlier than `other`.
    pub open spec fn before(&self, other: Instant) -> bool {
        self.secs < other.secs || (self.secs == other.secs && self.nanos < other.nanos)
    }

    /// Whether this instant is strictly earlier than `other`.
    pub fn is_before(&self, other: &Instant) -> (earlier: bool)
        ensures
            earlier == self.before(*other),
    {
        self.secs < other.secs || (self.secs == other.secs && self.nanos < other.nanos)
    }

    /// The current time.
    pub fn now() -> (now: Instant)
        ensures
            now.is_reading(),
    {
        read_clock()
    }
}

/// The instant up to which a token issued at `issued` with a lifetime of
/// `lifetime` seconds is used: one second before it runs out.
pub open spec fn expiry(issued: Instant, lifetime: u64) -> Instant {
    Instant { secs: (issued.secs + lifetime - 1) as i128, nanos: issued.nanos }
}

/// Reads the clock with `chrono::Utc::now` and takes the reading apart with
/// `DateTime::timestamp` and `DateTime::timestamp_subsec_nanos`. Nothing is
/// claimed of the time that is read but that its seconds are a 64-bit number.
#[verifier::external_body]
fn read_clock() -> (now: Instant)
    ensures
        now.is_reading(),
{
    let now = chrono::Utc::now();
    Instant { secs: i128::from(now.timestamp()), nanos: now.timestamp_subsec_nanos() }
}

impl Token {
    /// The token that a grant received at `issued` amounts to. It expires
    /// one second before its declared lifetime is over.
    pub fn granted(data: TokenData, issued: &Instant) -> (token: Token)
        requires
            issued.is_reading(),
        ensures
            token.access_token == data.access_token,
            token.expiration == expiry(*issued, data.expires_in),
            token.expiration.secs == issued.secs + data.expires_in - 1,
            token.expiration.nanos == issued.nanos,
    {
        let lifetime: i128 = data.expires_in as i128;
        Token {
            access_token: data.access_token,
            expiration: Instant { secs: issued.secs + lifetime - 1, nanos: issued.nanos },
        }
    }

    /// Whether the token can still be used at `now`: only strictly before
    /// its expiration.
    pub fn is_valid_at(&self, now: &Instant) -> (valid: bool)
        ensures
            valid == now.before(self.expiration),
    {
        now.is_before(&self.expiration)
    }
}

} // verus!
