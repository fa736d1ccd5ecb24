//! How an entry lies in a persistent store: the time at which it expires, then its payload.

use crate::clock::{millis_after_epoch, millis_since_epoch, nanos_of, span_after_epoch};
use crate::error::{is_backend, joined, CacheError};
use std::time::{SystemTime, SystemTimeError};
use vstd::prelude::*;
use vstd::string::to_string_from_display_ensures;

verus! {

/// The time of expiry of an entry that never expires.
pub const EXPIRY_NEVER: u64 = 0;

/// How many bytes the time of expiry takes.
pub const HEADER_LEN: usize = 8;

/// The eight bytes of a number, the most significant first.
pub open spec fn big_endian(n: u64) -> Seq<u8> {
    seq![
        (n / 0x100_0000_0000_0000) as u8,
        (n / 0x1_0000_0000_0000 % 0x100) as u8,
        (n / 0x100_0000_0000 % 0x100) as u8,
        (n / 0x1_0000_0000 % 0x100) as u8,
        (n / 0x100_0000 % 0x100) as u8,
        (n / 0x1_0000 % 0x100) as u8,
        (n / 0x100 % 0x100) as u8,
        (n % 0x100) as u8,
    ]
}

/// The number that eight bytes stand for, the most significant first.
pub open spec fn number(b: Seq<u8>) -> int {
    b[0] * 0x100_0000_0000_0000 + b[1] * 0x1_0000_0000_0000 + b[2] * 0x100_0000_0000 + b[3]
        * 0x1_0000_0000 + b[4] * 0x100_0000 + b[5] * 0x1_0000 + b[6] * 0x100 + b[7]
}

/// An entry as it lies in the store.
pub open spec fn encoded(expires_at_ms: u64, payload: Seq<u8>) -> Seq<u8> {
    big_endian(expires_at_ms) + payload
}

/// What an entry in the store says: none for bytes too short to be one.
pub open spec fn decoded(bytes: Seq<u8>) -> Option<(u64, Seq<u8>)> {
    if bytes.len() < HEADER_LEN {
        None
    } else {
        Some((number(bytes.take(8)) as u64, bytes.skip(8)))
    }
}

/// Eight bytes stand for a number of 64 bits.
proof fn lemma_number_fits(b: Seq<u8>)
    requires
        b.len() == 8,
    ensures
        0 <= number(b) <= u64::MAX,
{
}

/// The bytes of a number stand for it.
proof fn lemma_number_of_big_endian(n: u64)
    ensures
        number(big_endian(n)) == n,
{
    let a = n / 0x100;
    let b = n / 0x1_0000;
    let c = n / 0x100_0000;
    let d = n / 0x1_0000_0000;
    let e = n / 0x100_0000_0000;
    let f = n / 0x1_0000_0000_0000;
    let g = n / 0x100_0000_0000_0000;
    assert(n == 0x100 * a + n % 0x100);
    assert(a == 0x100 * b + a % 0x100);
    assert(b == 0x100 * c + b % 0x100);
    assert(c == 0x100 * d + c % 0x100);
    assert(d == 0x100 * e + d % 0x100);
    assert(e == 0x100 * f + e % 0x100);
    assert(f == 0x100 * g + f % 0x100);
    assert(g < 0x100);
}

/// A number is determined by its bytes.
proof fn lemma_big_endian_of_number(b: Seq<u8>)
    requires
        b.len() == 8,
    ensures
        big_endian(number(b) as u64) == b,
{
    lemma_number_fits(b);
    let n = number(b) as u64;
    let r7 = b[0] as int;
    let r6 = r7 * 0x100 + b[1];
    let r5 = r6 * 0x100 + b[2];
    let r4 = r5 * 0x100 + b[3];
    let r3 = r4 * 0x100 + b[4];
    let r2 = r3 * 0x100 + b[5];
    let r1 = r2 * 0x100 + b[6];
    assert(n == r1 * 0x100 + b[7]);
    assert(n / 0x100 == r1);
    assert(n / 0x1_0000 == r2);
    assert(n / 0x100_0000 == r3);
    assert(n / 0x1_0000_0000 == r4);
    assert(n / 0x100_0000_0000 == r5);
    assert(n / 0x1_0000_0000_0000 == r6);
    assert(n / 0x100_0000_0000_0000 == r7);
    assert(big_endian(n) =~= b);
}

/// What is read of an entry is what was written.
pub proof fn law_decode_encoded(expires_at_ms: u64, payload: Seq<u8>)
    ensures
        decoded(encoded(expires_at_ms, payload)) == Some((expires_at_ms, payload)),
{
    let bytes = encoded(expires_at_ms, payload);
    assert(bytes.take(8) =~= big_endian(expires_at_ms));
    assert(bytes.skip(8) =~= payload);
    lemma_number_of_big_endian(expires_at_ms);
}

/// Whatever can be read as an entry is the one and only way to write that entry.
pub proof fn law_encode_decoded(bytes: Seq<u8>)
    requires
        decoded(bytes) is Some,
    ensures
        encoded(decoded(bytes).unwrap().0, decoded(bytes).unwrap().1) == bytes,
{
    lemma_big_endian_of_number(bytes.take(8));
    assert(bytes.take(8) + bytes.skip(8) =~= bytes);
}

/// A record is eight bytes, which stand for the time of expiry with the most significant first,
/// and then the payload as it is.
pub proof fn law_record_layout(expires_at_ms: u64, payload: Seq<u8>)
    ensures
        encoded(expires_at_ms, payload).len() == 8 + payload.len(),
        encoded(expires_at_ms, payload).skip(8) == payload,
        ({
            let b = encoded(expires_at_ms, payload);
            expires_at_ms == b[0] * 0x100_0000_0000_0000 + b[1] * 0x1_0000_0000_0000 + b[2]
                * 0x100_0000_0000 + b[3] * 0x1_0000_0000 + b[4] * 0x100_0000 + b[5] * 0x1_0000
                + b[6] * 0x100 + b[7]
        }),
{
    let b = encoded(expires_at_ms, payload);
    lemma_number_of_big_endian(expires_at_ms);
    assert(b.skip(8) =~= payload);
    assert(forall|i: int| 0 <= i < 8 ==> b[i] == big_endian(expires_at_ms)[i]);
}

/// The bytes of an entry that expires at `expires_at_ms` and holds `payload`.
pub fn encode_entry(expires_at_ms: u64, payload: &[u8]) -> (bytes: Vec<u8>)
    ensures
        bytes@ == encoded(expires_at_ms, payload@),
        bytes@.len() == 8 + payload@.len(),
        bytes@.skip(8) == payload@,
        expires_at_ms == bytes@[0] * 0x100_0000_0000_0000 + bytes@[1] * 0x1_0000_0000_0000
            + bytes@[2] * 0x100_0000_0000 + bytes@[3] * 0x1_0000_0000 + bytes@[4] * 0x100_0000
            + bytes@[5] * 0x1_0000 + bytes@[6] * 0x100 + bytes@[7],
{
    let mut bytes: Vec<u8> = Vec::new();
    bytes.push((expires_at_ms / 0x100_0000_0000_0000) as u8);
    bytes.push((expires_at_ms / 0x1_0000_0000_0000 % 0x100) as u8);
    bytes.push((expires_at_ms / 0x100_0000_0000 % 0x100) as u8);
    bytes.push((expires_at_ms / 0x1_0000_0000 % 0x100) as u8);
    bytes.push((expires_at_ms / 0x100_0000 % 0x100) as u8);
    bytes.push((expires_at_ms / 0x1_0000 % 0x100) as u8);
    bytes.push((expires_at_ms / 0x100 % 0x100) as u8);
    bytes.push((expires_at_ms % 0x100) as u8);
    assert(bytes@ =~= big_endian(expires_at_ms));
    bytes.extend_from_slice(payload);
    assert(bytes@ =~= encoded(expires_at_ms, payload@));
    proof {
        law_record_layout(expires_at_ms, payload@);
    }
    bytes
}

/// The time of expiry and the payload of an entry, or nothing where `bytes` is too short to be
/// one.
pub fn decode_entry(bytes: &[u8]) -> (entry: Option<(u64, &[u8])>)
    ensures
        match entry {
            Some((expires_at_ms, payload)) => decoded(bytes@) == Some((expires_at_ms, payload@)),
            None => decoded(bytes@) is None,
        },
        entry is Some <==> bytes@.len() >= 8,
        entry matches Some((expires_at_ms, payload)) ==> payload@ == bytes@.skip(8) && expires_at_ms
            == bytes@[0] * 0x100_0000_0000_0000 + bytes@[1] * 0x1_0000_0000_0000
            + bytes@[2] * 0x100_0000_0000 + bytes@[3] * 0x1_0000_0000 + bytes@[4] * 0x100_0000
            + bytes@[5] * 0x1_0000 + bytes@[6] * 0x100 + bytes@[7],
{
    if bytes.len() < HEADER_LEN {
        return None;
    }
    let (header, payload) = bytes.split_at(HEADER_LEN);
    proof {
        assert(header@ =~= bytes@.take(8));
        assert(payload@ =~= bytes@.skip(8));
        lemma_number_fits(header@);
    }
    let expires_at_ms: u64 = header[0] as u64 * 0x100_0000_0000_0000 + header[1] as u64
        * 0x1_0000_0000_0000 + header[2] as u64 * 0x100_0000_0000 + header[3] as u64
        * 0x1_0000_0000 + header[4] as u64 * 0x100_0000 + header[5] as u64 * 0x1_0000
        + header[6] as u64 * 0x100 + header[7] as u64;
    Some((expires_at_ms, payload))
}

/// For how many seconds an entry is kept: as long as asked, or as long as entries are kept by
/// default where nothing is asked.
pub open spec fn effective_ttl(ttl_secs: u64, default_ttl_secs: u64) -> u64 {
    if ttl_secs == 0 {
        default_ttl_secs
    } else {
        ttl_secs
    }
}

/// When an entry expires that is stored at `now_ms` to be kept for `ttl_secs` seconds: never where
/// the span is zero, and at the end of time where the sum is beyond it.
pub open spec fn expiry(now_ms: u64, ttl_secs: u64) -> u64 {
    if ttl_secs == 0 {
        EXPIRY_NEVER
    } else if now_ms + ttl_secs * 1000 > u64::MAX {
        u64::MAX
    } else {
        (now_ms + ttl_secs * 1000) as u64
    }
}

/// When an entry expires that is stored at `now_ms` to be kept for `ttl_secs` seconds.
pub fn expiry_at(now_ms: u64, ttl_secs: u64) -> (expires_at_ms: u64)
    ensures
        expires_at_ms == expiry(now_ms, ttl_secs),
        ttl_secs == 0 ==> expires_at_ms == 0,
        ttl_secs > 0 && now_ms + ttl_secs * 1000 <= u64::MAX ==> expires_at_ms == now_ms + ttl_secs
            * 1000,
        ttl_secs > 0 && now_ms + ttl_secs * 1000 > u64::MAX ==> expires_at_ms == u64::MAX,
{
    if ttl_secs == 0 {
        EXPIRY_NEVER
    } else if ttl_secs > u64::MAX / 1000 {
        u64::MAX
    } else {
        now_ms.saturating_add(ttl_secs * 1000)
    }
}

/// Whether an entry that expires at `expires_at_ms` has expired at `now_ms`.
pub open spec fn has_expired(expires_at_ms: u64, now_ms: u64) -> bool {
    expires_at_ms != EXPIRY_NEVER && now_ms >= expires_at_ms
}

/// What a reader gets of the bytes of an entry at `now_ms`: nothing of what is no entry or has
/// expired.
pub open spec fn readable(bytes: Seq<u8>, now_ms: u64) -> Option<Seq<u8>> {
    match decoded(bytes) {
        Some((expires_at_ms, payload)) => if has_expired(expires_at_ms, now_ms) {
            None
        } else {
            Some(payload)
        },
        None => None,
    }
}

/// What is stored for a span is read back until the span is over, and not from then on.
pub proof fn law_readable_until_expiry(payload: Seq<u8>, stored_ms: u64, ttl_secs: u64, now_ms: u64)
    ensures
        readable(encoded(expiry(stored_ms, ttl_secs), payload), now_ms) == if ttl_secs == 0
            || now_ms < expiry(stored_ms, ttl_secs) {
            Some(payload)
        } else {
            None
        },
{
    law_decode_encoded(expiry(stored_ms, ttl_secs), payload);
}

/// A record is read as its payload until the time that its first eight bytes stand for, the most
/// significant first, or for ever where that time is zero; bytes that are too short for a record
/// are not read at all.
pub proof fn law_record_is_read(bytes: Seq<u8>, now_ms: u64)
    ensures
        bytes.len() < 8 ==> readable(bytes, now_ms) is None,
        bytes.len() >= 8 ==> ({
            let expires = bytes[0] * 0x100_0000_0000_0000 + bytes[1] * 0x1_0000_0000_0000 + bytes[2]
                * 0x100_0000_0000 + bytes[3] * 0x1_0000_0000 + bytes[4] * 0x100_0000 + bytes[5]
                * 0x1_0000 + bytes[6] * 0x100 + bytes[7];
            readable(bytes, now_ms) == if expires == 0 || now_ms < expires {
                Some(bytes.skip(8))
            } else {
                None
            }
        }),
{
    if bytes.len() >= 8 {
        lemma_number_fits(bytes.take(8));
        assert(forall|i: int| 0 <= i < 8 ==> bytes.take(8)[i] == bytes[i]);
    }
}

/// What is stored for a time of its own is read for just that time, whatever the default; what is
/// stored for none is read for the default time; without either it is read for ever.
pub proof fn law_read_for_the_asked_time(
    payload: Seq<u8>,
    stored_ms: u64,
    ttl_secs: u64,
    default_ttl_secs: u64,
    now_ms: u64,
)
    ensures
        ({
            let read = readable(
                encoded(expiry(stored_ms, effective_ttl(ttl_secs, default_ttl_secs)), payload),
                now_ms,
            );
            &&& ttl_secs > 0 ==> read == if now_ms < stored_ms + ttl_secs * 1000 && now_ms
                < u64::MAX {
                Some(payload)
            } else {
                None
            }
            &&& ttl_secs == 0 && default_ttl_secs > 0 ==> read == if now_ms < stored_ms
                + default_ttl_secs * 1000 && now_ms < u64::MAX {
                Some(payload)
            } else {
                None
            }
            &&& ttl_secs == 0 && default_ttl_secs == 0 ==> read == Some(payload)
        }),
{
    let ttl = effective_ttl(ttl_secs, default_ttl_secs);
    law_readable_until_expiry(payload, stored_ms, ttl, now_ms);
}

/// Whether a clock that answered `passed` is told as `now`: the low 64 bits of the number, or a
/// failure in the clock's own words.
pub open spec fn tells(
    passed: Result<u128, SystemTimeError>,
    now: Result<u64, CacheError>,
) -> bool {
    match passed {
        Ok(millis) => now matches Ok(low) && low == millis % 0x1_0000_0000_0000_0000,
        Err(error) => now matches Err(told) && exists|text: String|
            to_string_from_display_ensures(&error, text) && #[trigger] is_backend(
                told,
                "system time: "@ + text@,
            ),
    }
}

/// What a clock that answered `passed` is told as.
pub fn told_millis(passed: Result<u128, SystemTimeError>) -> (now: Result<u64, CacheError>)
    ensures
        tells(passed, now),
        passed matches Ok(millis) ==> (now matches Ok(low) && low == millis
            % 0x1_0000_0000_0000_0000),
        passed matches Err(error) ==> (now matches Err(CacheError::Backend(told)) && exists|
            text: String,
        | #[trigger]
            to_string_from_display_ensures(&error, text) && told@ == "system time: "@ + text@),
{
    match passed {
        Ok(millis) => Ok(low_bits(millis)),
        Err(error) => {
            let text = error.to_string();
            let told = CacheError::Backend(joined("system time: ", &text));
            assert(is_backend(told, "system time: "@ + text@));
            assert(to_string_from_display_ensures(&error, text));
            Err(told)
        },
    }
}

/// Whether `now` tells how long after the start of the Unix epoch `time` lies.
pub open spec fn tells_time(time: SystemTime, now: Result<u64, CacheError>) -> bool {
    exists|passed: Result<u128, SystemTimeError>|
        {
            &&& #[trigger] tells(passed, now)
            &&& millis_after_epoch(time) == match passed {
                Ok(millis) => Some(millis),
                Err(_) => None,
            }
        }
}

/// The milliseconds since the start of the Unix epoch, by the system's clock. Which point in time
/// the clock gives rests on the machine; what is told of it does not.
pub fn now_ms() -> (now: Result<u64, CacheError>)
    ensures
        exists|time: SystemTime|
            call_ensures(std::time::SystemTime::now, (), time) && #[trigger] tells_time(time, now),
{
    let time = SystemTime::now();
    let passed = millis_since_epoch(time);
    let ghost answered = passed;
    let now = told_millis(passed);
    proof {
        assert(tells(answered, now));
        assert(tells_time(time, now));
    }
    now
}

/// The low 64 bits of a number.
pub fn low_bits(n: u128) -> (low: u64)
    ensures
        low == n % 0x1_0000_0000_0000_0000,
{
    (n % 0x1_0000_0000_0000_0000) as u64
}

/// What is told of a point in time is the low 64 bits of its whole milliseconds since the start of
/// the Unix epoch, and a failure exactly if it lies before that start.
pub proof fn law_time_is_told_in_milliseconds(time: SystemTime, now: Result<u64, CacheError>)
    requires
        tells_time(time, now),
    ensures
        now is Ok <==> span_after_epoch(time) is Some,
        now matches Ok(low) ==> low == nanos_of(span_after_epoch(time).unwrap()) / 1_000_000
            % 0x1_0000_0000_0000_0000,
        now matches Err(error) ==> (error matches CacheError::Backend(told) && exists|
            cause: SystemTimeError,
            text: String,
        | #[trigger]
            to_string_from_display_ensures(&cause, text) && told@ == "system time: "@ + text@),
{
    let passed = choose|passed: Result<u128, SystemTimeError>|
        {
            &&& #[trigger] tells(passed, now)
            &&& millis_after_epoch(time) == match passed {
                Ok(millis) => Some(millis),
                Err(_) => None,
            }
        };
    if let Err(cause) = passed {
        let told = now->Err_0;
        let text = choose|text: String|
            to_string_from_display_ensures(&cause, text) && #[trigger] is_backend(
                told,
                "system time: "@ + text@,
            );
        assert(to_string_from_display_ensures(&cause, text));
    }
}

} // verus!
