//! Taking in a contact number that was just heard: it arrives as
//! hexadecimal text, and goes to the observation log with the time.

use crate::errors::{ServicesError, TcnParseError};
use crate::observed_tcn::{byte_vec_to_16_byte_array, ObservedTcn, TcnDao, TCN_LENGTH};
use crate::reports_interval::UnixTime;
use vstd::prelude::*;

verus! {

/// `hex::FromHexError`: why a text is not hexadecimal. The library tells
/// failure from success, and reads nothing out of the error.
#[verifier::external_type_specification]
#[verifier::external_body]
pub struct ExFromHexError(hex::FromHexError);

/// What a hexadecimal digit counts: `0` to `9`, then `A` to `F` or `a` to
/// `f` for ten to fifteen. `None` for any other character.
pub open spec fn hex_digit_value(digit: char) -> Option<u8> {
    let code = digit as u32;
    if 0x30 <= code <= 0x39 {
        Some((code - 0x30) as u8)
    } else if 0x41 <= code <= 0x46 {
        Some((code - 0x41 + 10) as u8)
    } else if 0x61 <= code <= 0x66 {
        Some((code - 0x61 + 10) as u8)
    } else {
        None
    }
}

/// Whether the text is hexadecimal: an even number of hexadecimal digits.
pub open spec fn is_hex(text: Seq<char>) -> bool {
    &&& text.len() % 2 == 0
    &&& forall|i: int| 0 <= i < text.len() ==> hex_digit_value(#[trigger] text[i]) is Some
}

/// The bytes that a hexadecimal text stands for: one for each two digits,
/// the first of the two counting sixteenfold.
pub open spec fn hex_bytes(text: Seq<char>) -> Seq<u8> {
    Seq::new(
        text.len() / 2,
        |i: int|
            (16 * hex_digit_value(text[2 * i]).unwrap() + hex_digit_value(
                text[2 * i + 1],
            ).unwrap()) as u8,
    )
}

/// `hex::decode`: succeeds on an even number of hexadecimal digits, of
/// either case, and gives their bytes; fails on any other text.
#[verifier::external_body]
fn hex_decode(text: &str) -> (res: Result<Vec<u8>, hex::FromHexError>)
    ensures
        match res {
            Ok(bytes) => is_hex(text@) && bytes@ == hex_bytes(text@),
            Err(_) => !is_hex(text@),
        },
{
    hex::decode(text)
}

/// The contact number that a text of 32 hexadecimal digits stands for.
pub fn tcn_from_hex(tcn_str: &str) -> (res: Result<[u8; 16], ServicesError>)
    ensures
        match res {
            Ok(tcn) => is_hex(tcn_str@) && tcn_str@.len() == 32 && tcn@ == hex_bytes(tcn_str@),
            Err(error) => if is_hex(tcn_str@) {
                tcn_str@.len() != 32 && error == ServicesError::Decode(TcnParseError::InvalidLength)
            } else {
                error == ServicesError::Decode(TcnParseError::InvalidHex)
            },
        },
{
    match hex_decode(tcn_str) {
        Ok(bytes_vec) => {
            if bytes_vec.len() == TCN_LENGTH {
                Ok(byte_vec_to_16_byte_array(bytes_vec))
            } else {
                Err(ServicesError::Decode(TcnParseError::InvalidLength))
            }
        },
        Err(_) => Err(ServicesError::Decode(TcnParseError::InvalidHex)),
    }
}

/// Takes in the contact numbers that the device hears.
pub trait ObservedTcnProcessor {
    /// Keeps the contact number that `tcn_str` stands for, as heard now.
    fn save(&self, tcn_str: &str) -> Result<(), ServicesError>;
}

/// Takes in contact numbers as hexadecimal text, and writes them to the
/// observation log.
pub struct ObservedTcnProcessorImpl<'a, A: TcnDao> {
    pub tcn_dao: &'a A,
}

impl<'a, A: TcnDao> ObservedTcnProcessor for ObservedTcnProcessorImpl<'a, A> {
    /// Hands the contact number to the log, with the time of the system
    /// clock. A text that is no contact number is refused, and nothing
    /// reaches the log.
    fn save(&self, tcn_str: &str) -> (res: Result<(), ServicesError>)
        ensures
            !is_hex(tcn_str@) ==> res == Err::<(), ServicesError>(
                ServicesError::Decode(TcnParseError::InvalidHex),
            ),
            is_hex(tcn_str@) && tcn_str@.len() != 32 ==> res == Err::<(), ServicesError>(
                ServicesError::Decode(TcnParseError::InvalidLength),
            ),
    {
        match tcn_from_hex(tcn_str) {
            Ok(tcn) => self.tcn_dao.save(ObservedTcn { tcn, time: UnixTime::now() }),
            Err(error) => Err(error),
        }
    }
}

} // verus!
