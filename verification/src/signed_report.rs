//! Signed reports as they are published, and what verifying one yields.

use vstd::prelude::*;

verus! {

/// `base64::DecodeError`: why a text is not base64. The library tells
/// failure from success, and reads nothing out of the error.
#[verifier::external_type_specification]
#[verifier::external_body]
pub struct ExBase64DecodeError(base64::DecodeError);

/// What `base64::decode` makes of a text: the bytes that the text stands
/// for in standard base64, or `None` where it refuses the text.
pub uninterp spec fn base64_decoded(text: Seq<char>) -> Option<Seq<u8>>;

/// Whether `tcn::SignedReport::read` finds a signed report at the front of
/// the bytes: a report in its wire format, followed by its signature.
pub uninterp spec fn reads_as_signed_report(bytes: Seq<u8>) -> bool;

/// What `tcn::SignedReport::verify` yields for the signed report at the
/// front of `bytes`: the contact numbers that the report discloses, in the
/// order of their derivation, and its memo. `None` where the bytes hold no
/// signed report, or its signature does not verify.
pub uninterp spec fn verified_report(bytes: Seq<u8>) -> Option<(Seq<[u8; 16]>, Seq<u8>)>;

/// `base64::decode`: decodes `text` with the standard alphabet. What it
/// returns depends on the text alone; the contract claims no more than
/// that, by giving the result its name.
#[verifier::external_body]
fn base64_decode(text: &str) -> (res: Result<Vec<u8>, base64::DecodeError>)
    ensures
        match res {
            Ok(bytes) => base64_decoded(text@) == Some(bytes@),
            Err(_) => base64_decoded(text@) is None,
        },
{
    base64::decode(text)
}

/// `tcn::SignedReport::read` on the bytes: whether it succeeds. What it
/// returns depends on the bytes alone; the contract claims no more than
/// that, by giving the result its name.
#[verifier::external_body]
fn signed_report_reads(bytes: &Vec<u8>) -> (reads: bool)
    ensures
        reads == reads_as_signed_report(bytes@),
{
    tcn::SignedReport::read(bytes.as_slice()).is_ok()
}

/// `tcn::SignedReport::verify` on the report that `tcn::SignedReport::read`
/// finds in `bytes`, with what `tcn::Report::temporary_contact_numbers` and
/// `tcn::Report::memo_data` hand out of the verified report. Reading and
/// verifying look at nothing but the bytes, so the same bytes always give
/// the same result; the contract claims no more than that, by giving the
/// result its name.
#[verifier::external_body]
fn verify_signed_report(bytes: &Vec<u8>) -> (report: Option<VerifiedReport>)
    ensures
        match report {
            Some(report) => verified_report(bytes@) == Some(report@),
            None => verified_report(bytes@) is None,
        },
{
    let signed = tcn::SignedReport::read(bytes.as_slice()).ok()?;
    let report = signed.verify().ok()?;
    Some(VerifiedReport {
        temporary_contact_numbers: report.temporary_contact_numbers().map(|tcn| tcn.0).collect(),
        memo_data: report.memo_data().to_vec(),
    })
}

/// A report whose signature was verified: the contact numbers that it
/// discloses, in the order of their derivation, and its memo.
#[derive(Debug, Clone, PartialEq, Eq)]
pub struct VerifiedReport {
    pub temporary_contact_numbers: Vec<[u8; 16]>,
    pub memo_data: Vec<u8>,
}

impl View for VerifiedReport {
    type V = (Seq<[u8; 16]>, Seq<u8>);

    open spec fn view(&self) -> (Seq<[u8; 16]>, Seq<u8>) {
        (self.temporary_contact_numbers@, self.memo_data@)
    }
}

/// A signed report as published: the bytes of its wire format.
#[derive(Debug, PartialEq, Eq)]
pub struct SignedReport {
    bytes: Vec<u8>,
}

impl View for SignedReport {
    type V = Seq<u8>;

    closed spec fn view(&self) -> Seq<u8> {
        self.bytes@
    }
}

impl Clone for SignedReport {
    fn clone(&self) -> (copy: Self)
        ensures
            copy@ == self@,
    {
        proof {
            use_type_invariant(self);
        }
        SignedReport { bytes: self.bytes.clone() }
    }
}

impl SignedReport {
    #[verifier::type_invariant]
    spec fn reads(&self) -> bool {
        reads_as_signed_report(self.bytes@)
    }

    /// The report that `bytes` hold, if they hold one.
    pub fn from_bytes(bytes: Vec<u8>) -> (report: Option<SignedReport>)
        ensures
            report is Some <==> reads_as_signed_report(bytes@),
            report matches Some(r) ==> r@ == bytes@,
    {
        if signed_report_reads(&bytes) {
            Some(SignedReport { bytes })
        } else {
            None
        }
    }

    /// The report that a text in base64 holds, if it holds one.
    pub fn with_str(text: &str) -> (report: Option<SignedReport>)
        ensures
            report is Some <==> (base64_decoded(text@) matches Some(bytes)
                && reads_as_signed_report(bytes)),
            report matches Some(r) ==> base64_decoded(text@) == Some(r@),
    {
        match base64_decode(text) {
            Ok(bytes) => SignedReport::from_bytes(bytes),
            Err(_) => None,
        }
    }

    /// Verifies the signature of the report. A report that does not verify
    /// is no error: it yields nothing.
    pub fn verify(&self) -> (report: Option<VerifiedReport>)
        ensures
            match report {
                Some(report) => verified_report(self@) == Some(report@),
                None => verified_report(self@) is None,
            },
    {
        verify_signed_report(&self.bytes)
    }

    /// The bytes of the report. They read as a signed report: no value of
    /// this type holds other bytes.
    pub fn as_bytes(&self) -> (bytes: &Vec<u8>)
        ensures
            bytes@ == self@,
            reads_as_signed_report(self@),
    {
        proof {
            use_type_invariant(self);
        }
        &self.bytes
    }
}

} // verus!
