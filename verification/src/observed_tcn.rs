//! Contact numbers observed nearby, and the fixed-width record in which the
//! observation log keeps each of them.

use crate::errors::{PersistenceError, ServicesError};
use crate::reports_interval::UnixTime;
use vstd::bytes::{
    lemma_auto_spec_u64_to_from_le_bytes, spec_u64_from_le_bytes, spec_u64_to_le_bytes,
    spec_u64_to_le_bytes_open, spec_u64_to_le_bytes_to_open, u64_from_le_bytes,
};
use vstd::prelude::*;
use vstd::slice::{slice_subrange, slice_to_vec};

verus! {

/// Bytes of a contact number.
pub const TCN_LENGTH: usize = 16;

/// Bytes of the record of one observation.
pub const RECORD_LENGTH: usize = 24;

/// One observation: the contact number that was heard, and when.
#[derive(Debug, Clone, Copy, PartialEq, Eq)]
pub struct ObservedTcn {
    pub tcn: [u8; 16],
    pub time: UnixTime,
}

/// The record of an observation: the 16 bytes of the contact number, then
/// the time as 8 bytes, least significant first.
pub open spec fn record_of(observed: ObservedTcn) -> Seq<u8> {
    observed.tcn@ + spec_u64_to_le_bytes(observed.time.value)
}

/// Whether `observed` is the observation that the 24 bytes of `record` hold.
pub open spec fn is_observation_of(record: Seq<u8>, observed: ObservedTcn) -> bool {
    &&& observed.tcn@ == record.subrange(0, 16)
    &&& observed.time.value == spec_u64_from_le_bytes(record.subrange(16, 24))
}

/// The log of the contact numbers observed nearby.
pub trait TcnDao {
    /// All observations in the log.
    fn all(&self) -> Result<Vec<ObservedTcn>, ServicesError>;

    /// Appends one observation to the log, or leaves the log as it was.
    fn save(&self, observed_tcn: ObservedTcn) -> Result<(), ServicesError>;
}

/// Values that are kept as eight bytes.
pub trait ByteArrayMappable {
    fn as_bytes(&self) -> [u8; 8];
}

impl ByteArrayMappable for u64 {
    /// The eight bytes of the number, least significant first.
    fn as_bytes(&self) -> (bytes: [u8; 8])
        ensures
            bytes@ == spec_u64_to_le_bytes(*self),
    {
        let value: u64 = *self;
        let mut acc: [u8; 8] = [0; 8];
        let mut index: usize = 0;
        while index < 8
            invariant
                index <= 8,
                forall|i: int|
                    0 <= i < index ==> acc@[i] == ((value >> ((i * 8) as u64)) & 0xff) as u8,
            decreases 8 - index,
        {
            let shift: u64 = (index as u64) * 8;
            let byte: u64 = (value >> shift) & 0xff;
            assert(byte < 256) by (bit_vector)
                requires
                    byte == (value >> shift) & 0xff,
            ;
            acc[index] = byte as u8;
            index = index + 1;
        }
        proof {
            spec_u64_to_le_bytes_to_open(value);
            assert(value >> 0 == value) by (bit_vector);
            assert(acc@ =~= spec_u64_to_le_bytes_open(value));
        }
        acc
    }
}

/// The array that holds the `N` bytes of `bytes`.
fn byte_vec_to_array<const N: usize>(bytes: &Vec<u8>) -> (array: [u8; N])
    requires
        bytes@.len() == N,
    ensures
        array@ == bytes@,
{
    let mut array: [u8; N] = [0; N];
    let mut index: usize = 0;
    while index < N
        invariant
            index <= N,
            bytes@.len() == N,
            forall|i: int| 0 <= i < index ==> array@[i] == bytes@[i],
        decreases N - index,
    {
        array[index] = bytes[index];
        index = index + 1;
    }
    assert(array@ =~= bytes@);
    array
}

/// The array that holds the 8 bytes of `bytes`.
pub fn byte_vec_to_8_byte_array(bytes: Vec<u8>) -> (array: [u8; 8])
    requires
        bytes@.len() == 8,
    ensures
        array@ == bytes@,
{
    byte_vec_to_array::<8>(&bytes)
}

/// The array that holds the 16 bytes of `bytes`.
pub fn byte_vec_to_16_byte_array(bytes: Vec<u8>) -> (array: [u8; 16])
    requires
        bytes@.len() == 16,
    ensures
        array@ == bytes@,
{
    byte_vec_to_array::<16>(&bytes)
}

/// The array that holds the 24 bytes of `bytes`.
pub fn byte_vec_to_24_byte_array(bytes: Vec<u8>) -> (array: [u8; 24])
    requires
        bytes@.len() == 24,
    ensures
        array@ == bytes@,
{
    byte_vec_to_array::<24>(&bytes)
}

impl ObservedTcn {
    /// The record that the observation log keeps of this observation.
    pub fn as_bytes(&self) -> (bytes: [u8; 24])
        ensures
            bytes@ == record_of(*self),
    {
        let tcn_bytes: [u8; 16] = self.tcn;
        let time_bytes: [u8; 8] = self.time.value.as_bytes();
        let mut total_bytes: Vec<u8> = Vec::with_capacity(RECORD_LENGTH);
        let mut index: usize = 0;
        while index < 16
            invariant
                index <= 16,
                total_bytes@ == tcn_bytes@.subrange(0, index as int),
            decreases 16 - index,
        {
            total_bytes.push(tcn_bytes[index]);
            index = index + 1;
        }
        assert(total_bytes@ == tcn_bytes@);
        let mut index: usize = 0;
        while index < 8
            invariant
                index <= 8,
                total_bytes@ == tcn_bytes@ + time_bytes@.subrange(0, index as int),
            decreases 8 - index,
        {
            total_bytes.push(time_bytes[index]);
            index = index + 1;
        }
        assert(total_bytes@ == tcn_bytes@ + time_bytes@);
        byte_vec_to_24_byte_array(total_bytes)
    }

    /// The observation that a record holds.
    pub fn from_bytes(bytes: [u8; 24]) -> (observed: ObservedTcn)
        ensures
            is_observation_of(bytes@, observed),
    {
        let record: &[u8] = bytes.as_slice();
        let tcn_bytes: [u8; 16] = byte_vec_to_16_byte_array(
            slice_to_vec(slice_subrange(record, 0, 16)),
        );
        let time: u64 = u64_from_le_bytes(slice_subrange(record, 16, 24));
        ObservedTcn { tcn: tcn_bytes, time: UnixTime { value: time } }
    }
}

/// Whether `res` is what decoding the records gives: the observation of
/// each record, in their order, or a failure where one of the records is
/// not 24 bytes long.
pub open spec fn is_decoding_of(
    records: Seq<Vec<u8>>,
    res: Result<Vec<ObservedTcn>, ServicesError>,
) -> bool {
    match res {
        Ok(observations) => {
            &&& observations@.len() == records.len()
            &&& forall|i: int|
                0 <= i < records.len() ==> records[i]@.len() == 24 && is_observation_of(
                    #[trigger] records[i]@,
                    observations@[i],
                )
        },
        Err(error) => {
            &&& error == ServicesError::Persistence(PersistenceError::MalformedRecord)
            &&& exists|i: int| 0 <= i < records.len() && #[trigger] records[i]@.len() != 24
        },
    }
}

/// The observations that the records of a scan of the log hold, in the order
/// of the scan. A record that is not 24 bytes long makes the whole scan fail.
pub fn observations_from_records(records: &Vec<Vec<u8>>) -> (res: Result<
    Vec<ObservedTcn>,
    ServicesError,
>)
    ensures
        is_decoding_of(records@, res),
{
    let mut out: Vec<ObservedTcn> = Vec::new();
    let mut index: usize = 0;
    while index < records.len()
        invariant
            index <= records@.len(),
            out@.len() == index,
            forall|i: int|
                0 <= i < index ==> records@[i]@.len() == 24 && is_observation_of(
                    #[trigger] records@[i]@,
                    out@[i],
                ),
        decreases records@.len() - index,
    {
        let content: &Vec<u8> = &records[index];
        if content.len() != RECORD_LENGTH {
            return Err(ServicesError::Persistence(PersistenceError::MalformedRecord));
        }
        let byte_array: [u8; 24] = byte_vec_to_array::<24>(content);
        out.push(ObservedTcn::from_bytes(byte_array));
        index = index + 1;
    }
    Ok(out)
}

/// A record is as long as the format says.
pub proof fn lemma_record_length(observed: ObservedTcn)
    ensures
        record_of(observed).len() == 24,
{
    lemma_auto_spec_u64_to_from_le_bytes();
}

/// Encoding and decoding are inverse to each other: the record of an
/// observation holds that observation, and no other.
pub proof fn lemma_record_round_trip(observed: ObservedTcn, decoded: ObservedTcn)
    ensures
        is_observation_of(record_of(observed), observed),
        is_observation_of(record_of(observed), decoded) ==> decoded == observed,
{
    lemma_auto_spec_u64_to_from_le_bytes();
    let record = record_of(observed);
    assert(record.subrange(0, 16) =~= observed.tcn@);
    assert(record.subrange(16, 24) =~= spec_u64_to_le_bytes(observed.time.value));
    if is_observation_of(record, decoded) {
        assert(decoded.tcn =~= observed.tcn);
    }
}

/// The other way round: 24 bytes are the record of the observation that
/// they hold.
pub proof fn lemma_record_of_decoded(record: Seq<u8>, decoded: ObservedTcn)
    requires
        record.len() == 24,
        is_observation_of(record, decoded),
    ensures
        record_of(decoded) == record,
{
    lemma_auto_spec_u64_to_from_le_bytes();
    assert(record_of(decoded) =~= record.subrange(0, 16) + record.subrange(16, 24));
    assert(record.subrange(0, 16) + record.subrange(16, 24) =~= record);
}

} // verus!
