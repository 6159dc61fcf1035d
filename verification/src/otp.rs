use vstd::prelude::*;

use crate::errors::Error;

verus! {

/// Seconds a time window lasts before the counter advances.
pub const PERIOD: u32 = 30;

/// Codes have six decimal digits: every code is below this bound.
pub const CODE_BOUND: u32 = 1000000;

/// The characters the BASE32 alphabet admits: the 26 upper-case letters,
/// the digits 2 through 7, and the padding character.
pub open spec fn is_base32_symbol(c: char) -> bool {
    ('A' <= c && c <= 'Z') || ('2' <= c && c <= '7') || c == '='
}

/// The bytes a BASE32 text denotes, or nothing where the text is not
/// valid BASE32. The decoding itself is done by an outside crate; this
/// name stands for its result, which depends on the text alone.
pub uninterp spec fn base32_decoded(s: Seq<char>) -> Option<Seq<u8>>;

/// Relies on data_encoding::BASE32.decode: decoding succeeds exactly on
/// valid BASE32 text, in particular it fails on any character outside the
/// alphabet, and the empty text decodes to the empty byte sequence.
#[verifier::external_body]
fn base32_decode(s: &str) -> (r: Result<Vec<u8>, data_encoding::DecodeError>)
    ensures
        match r {
            Ok(v) => base32_decoded(s@) == Some(v@),
            Err(_) => base32_decoded(s@) is None,
        },
        (exists|i: int| 0 <= i < s@.len() && !is_base32_symbol(s@[i])) ==> r is Err,
        s@.len() == 0 ==> r is Ok,
{
    data_encoding::BASE32.decode(s.as_bytes())
}

/// The error type of data_encoding's decoding, declared so the wrapper
/// can return it as the outside crate does.
#[verifier::external_type_specification]
#[verifier::external_body]
pub struct ExDecodeError(data_encoding::DecodeError);

/// A stored secret is usable when its text decodes and the decoded bytes
/// are not empty: a credential's raw key must hold at least one byte.
pub open spec fn secret_ok(key: Seq<char>) -> bool {
    match base32_decoded(key) {
        Some(b) => b.len() > 0,
        None => false,
    }
}

/// Decode a stored secret; a failure is the `SecretDecode` error of this
/// library. A text that decodes to no bytes at all is rejected too: a
/// usable secret is never empty.
pub fn decode_secret(key: &String) -> (r: Result<Vec<u8>, Error>)
    ensures
        match r {
            Ok(v) => base32_decoded(key@) == Some(v@) && v@.len() > 0 && secret_ok(key@),
            Err(e) => e == Error::SecretDecode && !secret_ok(key@),
        },
        (exists|i: int| 0 <= i < key@.len() && !is_base32_symbol(key@[i])) ==> r is Err,
    {
    match base32_decode(key.as_str()) {
        Ok(v) => {
            if v.len() == 0 {
                Err(Error::SecretDecode)
            } else {
                Ok(v)
            }
        },
        Err(_) => Err(Error::SecretDecode),
    }
}

/// Relies on basic_otp::totp_offset: the code is the six-digit one-time
/// code of the window `offset` periods ahead of now, and the seconds left
/// count down within that window, so they lie past `offset` whole periods
/// and at most `offset + 1` of them. The result depends on the clock, so
/// nothing ties one call's result to another's.
#[verifier::external_body]
pub(crate) fn totp_slot(key: &Vec<u8>, offset: u32) -> (r: (u32, u32))
    requires
        offset <= 1,
    ensures
        r.0 < CODE_BOUND,
        PERIOD * offset < r.1 <= PERIOD * (offset + 1),
{
    let slot = basic_otp::totp_offset(key.as_slice(), offset as i32);
    (slot.code, slot.secs_left)
}

/// The look-ahead policy: a window is rejected exactly when its remaining
/// seconds are strictly below the threshold.
pub open spec fn lookahead_needed(secs_left: u32, min_secs_left: u32) -> bool {
    secs_left < min_secs_left
}

/// The executable form of the policy.
pub fn needs_lookahead(secs_left: u32, min_secs_left: u32) -> (b: bool)
    ensures
        b == lookahead_needed(secs_left, min_secs_left),
{
    secs_left < min_secs_left
}

/// One produced code: the code itself, how many seconds it remains valid,
/// and how many whole periods ahead of now its window lies.
#[derive(Clone, Copy, Debug, PartialEq, Eq, Structural)]
pub struct TimeSlot {
    pub code: u32,
    pub secs_left: u32,
    pub offset: u32,
}

/// The outcome of selecting a window: the chosen slot, whether the
/// look-ahead was triggered, and the seconds the current window had left
/// when the decision was made (the figure a warning reports).
#[derive(Clone, Copy, Debug, PartialEq, Eq, Structural)]
pub struct Selection {
    pub slot: TimeSlot,
    pub warned: bool,
    pub first_secs_left: u32,
}

impl Selection {
    /// What holds of every selection made against threshold
    /// `min_secs_left`: the look-ahead is triggered exactly when the
    /// current window's remaining seconds fall strictly below the
    /// threshold, the chosen slot is the next window exactly then, and
    /// the slot's figures lie within its window.
    pub open spec fn valid(self, min_secs_left: u32) -> bool {
        &&& self.warned == lookahead_needed(self.first_secs_left, min_secs_left)
        &&& self.slot.offset == if self.warned {
            1u32
        } else {
            0u32
        }
        &&& self.slot.code < CODE_BOUND
        &&& 0 < self.first_secs_left <= PERIOD
        &&& (!self.warned ==> self.slot.secs_left == self.first_secs_left)
        &&& (self.warned ==> PERIOD < self.slot.secs_left <= 2 * PERIOD)
    }
}

/// Decide which window's code to surface for a decoded secret: the
/// current window, unless it has strictly fewer than `min_secs_left`
/// seconds left, in which case the next window's code is produced and the
/// caller is told to warn. A threshold of zero accepts the current window
/// always; one above the period forces the look-ahead always.
pub fn select_slot(key: &Vec<u8>, min_secs_left: u32) -> (r: Selection)
    ensures
        r.valid(min_secs_left),
        min_secs_left == 0 ==> !r.warned,
        min_secs_left > PERIOD ==> r.warned,
{
    let (code0, secs0) = totp_slot(key, 0);
    if needs_lookahead(secs0, min_secs_left) {
        let (code1, secs1) = totp_slot(key, 1);
        Selection {
            slot: TimeSlot { code: code1, secs_left: secs1, offset: 1 },
            warned: true,
            first_secs_left: secs0,
        }
    } else {
        Selection {
            slot: TimeSlot { code: code0, secs_left: secs0, offset: 0 },
            warned: false,
            first_secs_left: secs0,
        }
    }
}

} // verus!
