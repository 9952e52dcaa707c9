//! Access tokens: when they expire and where they are kept.

use vstd::prelude::*;

use crate::text::{join, join_strings, texts};

verus! {

/// A moment: the seconds since the Unix epoch and the nanoseconds within the second.
#[derive(Clone, Copy, Debug, PartialEq, Eq, Structural)]
pub struct Timestamp {
    pub secs: i64,
    pub nanos: u32,
}

/// The first second that a [`Timestamp`] can be moved from or to.
pub const FIRST_SECOND: i64 = -8_334_601_228_800;

/// The last second that a [`Timestamp`] can be moved from or to.
pub const LAST_SECOND: i64 = 8_210_266_876_799;

/// The longest time, in seconds, that a [`Timestamp`] can be moved by.
pub const LONGEST_SPAN: i64 = 9_223_372_036_854_775;

impl Timestamp {
    /// The moment lies behind the other.
    pub open spec fn is_after(self, other: Timestamp) -> bool {
        self.secs > other.secs || (self.secs == other.secs && self.nanos > other.nanos)
    }

    /// Whether the moment lies behind the other.
    pub fn after(self, other: Timestamp) -> (r: bool)
        ensures
            r == self.is_after(other),
    {
        self.secs > other.secs || (self.secs == other.secs && self.nanos > other.nanos)
    }

    /// The moment lies within the calendar and within its second.
    pub open spec fn in_calendar(self) -> bool {
        FIRST_SECOND <= self.secs <= LAST_SECOND && self.nanos < 1_000_000_000
    }

    /// The moment that many seconds later lies within the calendar.
    pub open spec fn can_move(self, seconds: i64) -> bool {
        &&& self.in_calendar()
        &&& -LONGEST_SPAN <= seconds <= LONGEST_SPAN
        &&& FIRST_SECOND <= self.secs + seconds <= LAST_SECOND
    }
}

/// `chrono::DateTime::checked_add_signed` moves a moment of the calendar by a span
/// of time, here of whole seconds, which leaves the nanoseconds as they are. It
/// gives none where the moment would leave the calendar.
#[verifier::external_body]
fn move_by(at: Timestamp, seconds: i64) -> (r: Option<Timestamp>)
    requires
        at.in_calendar(),
        -LONGEST_SPAN <= seconds <= LONGEST_SPAN,
    ensures
        r == if at.can_move(seconds) {
            Some(Timestamp { secs: (at.secs + seconds) as i64, nanos: at.nanos })
        } else {
            None
        },
{
    let at: chrono::DateTime<chrono::Utc> = chrono::DateTime::from_timestamp(at.secs, at.nanos)?;
    let moved = at.checked_add_signed(chrono::TimeDelta::try_seconds(seconds)?)?;
    Some(Timestamp { secs: moved.timestamp(), nanos: moved.timestamp_subsec_nanos() })
}

/// A number of seconds, where the upper half of its range stands for negative ones.
pub open spec fn signed(n: u64) -> int {
    if n <= i64::MAX {
        n as int
    } else {
        n - 0x1_0000_0000_0000_0000
    }
}

fn signed_seconds(n: u64) -> (r: i64)
    ensures
        r == signed(n),
{
    if n <= i64::MAX as u64 {
        n as i64
    } else {
        let below: i64 = (u64::MAX - n) as i64;
        -1 - below
    }
}

/// The moment can be moved by a lifetime in seconds.
pub open spec fn expiry_in_calendar(now: Timestamp, expires_in: u64) -> bool {
    now.can_move(signed(expires_in) as i64)
}

/// Whether the moment can be moved by a lifetime in seconds.
pub fn has_expiry(now: Timestamp, expires_in: u64) -> (r: bool)
    ensures
        r == expiry_in_calendar(now, expires_in),
{
    let seconds = signed_seconds(expires_in);
    if now.secs < FIRST_SECOND || now.secs > LAST_SECOND || now.nanos >= 1_000_000_000 {
        return false;
    }
    if seconds < -LONGEST_SPAN || seconds > LONGEST_SPAN {
        return false;
    }
    move_by(now, seconds).is_some()
}

/// When a token expires that was given out now for a number of seconds.
pub fn expiry(now: Timestamp, expires_in: u64) -> (at: Timestamp)
    requires
        expiry_in_calendar(now, expires_in),
    ensures
        at.secs == now.secs + signed(expires_in),
        at.nanos == now.nanos,
{
    move_by(now, signed_seconds(expires_in)).unwrap()
}

/// An access token, and when it expires, if it does.
#[derive(Debug, PartialEq, Eq)]
pub struct TokenData {
    pub access_token: String,
    pub expires_at: Option<Timestamp>,
}

/// A token with this expiry can still be used.
pub open spec fn fresh(expires_at: Option<Timestamp>, now: Timestamp) -> bool {
    expires_at matches Some(at) ==> at.is_after(now)
}

/// The token, if there is one that can still be used.
pub open spec fn usable(kept: Option<TokenData>, now: Timestamp) -> Option<TokenData> {
    match kept {
        Some(token) => if fresh(token.expires_at, now) {
            Some(token)
        } else {
            None
        },
        None => None,
    }
}

/// The token, if there is one that can still be used.
pub fn if_usable(kept: Option<TokenData>, now: Timestamp) -> (r: Option<TokenData>)
    ensures
        r == usable(kept, now),
{
    match kept {
        None => None,
        Some(token) => match token.expires_at {
            Some(at) => {
                if at.after(now) {
                    Some(token)
                } else {
                    None
                }
            },
            None => Some(token),
        },
    }
}

/// A token that is given out for a number of seconds can be used from then on for
/// just that time: as long as the seconds since then are fewer, or as many and the
/// nanoseconds not yet reached.
pub proof fn law_token_lives_for_its_lifetime(
    now: Timestamp,
    expires_in: u64,
    at: Timestamp,
    later: Timestamp,
)
    requires
        at.secs == now.secs + signed(expires_in),
        at.nanos == now.nanos,
    ensures
        fresh(Some(at), later) <==> later.secs - now.secs < signed(expires_in) || (later.secs
            - now.secs == signed(expires_in) && later.nanos < now.nanos),
        fresh(Some(at), now) <==> signed(expires_in) > 0,
{
}

/// The directory of the kept tokens, below that of the configuration.
pub const CACHE_DIR: &'static str = "databricks/oauth";

/// Where the token for a host, a client and a list of scopes is kept.
#[derive(Debug, PartialEq, Eq)]
pub struct TokenCache {
    pub file_name: String,
}

/// The SHA-256 digest of bytes.
pub uninterp spec fn sha256(bytes: Seq<u8>) -> Seq<u8>;

/// `sha2::Digest::digest` of `sha2::Sha256` gives the SHA-256 digest of bytes, which
/// has 32 bytes.
#[verifier::external_body]
pub(crate) fn digest(bytes: &[u8]) -> (d: Vec<u8>)
    ensures
        d@ == sha256(bytes@),
        d@.len() == 32,
{
    <sha2::Sha256 as sha2::Digest>::digest(bytes).to_vec()
}

/// A hexadecimal digit, with small letters.
pub open spec fn small_hex(n: int) -> char {
    if n < 10 {
        (48 + n) as char
    } else {
        (87 + n) as char
    }
}

/// Bytes in hexadecimal, two digits for each.
pub open spec fn hex(bytes: Seq<u8>) -> Seq<char>
    decreases bytes.len(),
{
    if bytes.len() == 0 {
        Seq::empty()
    } else {
        hex(bytes.drop_last()) + seq![
            small_hex(bytes.last() as int / 16),
            small_hex(bytes.last() as int % 16),
        ]
    }
}

fn small_hex_digit(n: u8) -> (c: char)
    requires
        n < 16,
    ensures
        c == small_hex(n as int),
{
    if n < 10 {
        (48 + n) as char
    } else {
        (87 + n) as char
    }
}

/// Bytes in hexadecimal, two digits for each.
pub fn hex_text(bytes: &[u8]) -> (s: String)
    ensures
        s@ == hex(bytes@),
{
    let mut s = String::new();
    let mut i: usize = 0;
    while i < bytes.len()
        invariant
            i <= bytes@.len(),
            s@ == hex(bytes@.take(i as int)),
        decreases bytes@.len() - i,
    {
        let b: u8 = bytes[i];
        s.push(small_hex_digit(b / 16));
        s.push(small_hex_digit(b % 16));
        proof {
            assert(bytes@.take(i + 1).drop_last() =~= bytes@.take(i as int));
            assert(s@ =~= hex(bytes@.take(i + 1)));
        }
        i += 1;
    }
    proof {
        assert(bytes@.take(i as int) =~= bytes@);
    }
    s
}

/// What a kept token is told from others by.
pub open spec fn cache_key(
    host: Seq<char>,
    client_id: Seq<char>,
    scopes: Seq<Seq<char>>,
) -> Seq<char> {
    host + client_id + join(scopes, ","@)
}

/// The name of the file for a digest.
pub open spec fn cache_file(digest: Seq<u8>) -> Seq<char> {
    hex(digest) + ".json"@
}

/// The name of the file for a digest.
pub fn cache_file_name(digest: &[u8]) -> (s: String)
    ensures
        s@ == cache_file(digest@),
{
    let mut s = hex_text(digest);
    s.append(".json");
    s
}

impl TokenCache {
    /// Where the token for a host, a client and a list of scopes is kept: in a file
    /// that is named by the digest of the three.
    pub fn new(host: &str, client_id: &str, scopes: &[String]) -> (c: TokenCache)
        ensures
            c.file_name@ == cache_file(
                sha256(
                    vstd::utf8::encode_utf8(cache_key(host@, client_id@, texts(scopes@))),
                ),
            ),
    {
        let mut key = host.to_owned();
        key.append(client_id);
        key.append(join_strings(scopes, ",").as_str());
        let d = digest(key.as_str().as_bytes());
        TokenCache { file_name: cache_file_name(d.as_slice()) }
    }

    /// The token, if one was kept that can be read and can still be used.
    pub fn load_token(&self, kept: Option<TokenData>, now: Timestamp) -> (r: Option<TokenData>)
        ensures
            r == usable(kept, now),
    {
        if_usable(kept, now)
    }
}

} // verus!
