//! The whole ingest of one fetched tarball: check, inflate, unpack.

use vstd::prelude::*;
use vstd::string::*;
use crate::archive::{extract_tarball, extracted, plan_result_view, PlanView, StorePlan};
use crate::error::{FetchError, FetchErrorView};
use crate::gzip::{decompress_gzip, decompressed};
use crate::integrity::{
    checksum,
    expected_algorithm,
    index_location,
    index_location_of,
    verify_checksum,
};

verus! {

/// What ingesting the fetched bytes `response`, expected to have the
/// integrity string `integrity`, gives. The stages follow one another and
/// the first failure is the failure of the whole: the bytes are held
/// against the expected checksum, then inflated, then unpacked into a plan
/// whose index is stored under the digest that the integrity string
/// carries.
pub open spec fn fetched(response: Seq<u8>, integrity: Seq<char>) -> Result<
    PlanView,
    FetchErrorView,
> {
    let calculated = checksum(expected_algorithm(integrity), response);
    if calculated != integrity {
        Err(FetchErrorView::Integrity { expected: integrity, actual: calculated })
    } else {
        match decompressed(response) {
            Err(kind) => Err(FetchErrorView::Decompress(kind)),
            Ok(bytes) => match index_location_of(integrity) {
                None => Err(FetchErrorView::MalformedIntegrity),
                Some(location) => extracted(location, bytes),
            },
        }
    }
}

/// Nothing is planned for bytes whose checksum is not the expected one:
/// the ingest fails before anything is inflated or unpacked.
pub proof fn lemma_unverified_is_refused(response: Seq<u8>, integrity: Seq<char>)
    requires
        checksum(expected_algorithm(integrity), response) != integrity,
    ensures
        fetched(response, integrity) == Err::<PlanView, FetchErrorView>(
            FetchErrorView::Integrity {
                expected: integrity,
                actual: checksum(expected_algorithm(integrity), response),
            },
        ),
{
}

/// Ingests the fetched bytes `response` of a tarball whose expected
/// integrity string is `integrity`, and gives the plan of what is to be
/// written to the store.
pub fn fetch_tarball(response: &[u8], integrity: &str) -> (r: Result<StorePlan, FetchError>)
    ensures
        plan_result_view(r) == fetched(response@, integrity@),
        r matches Ok(plan) ==> plan.index.wf(),
{
    let verdict = match verify_checksum(response, integrity) {
        Ok(verdict) => verdict,
        Err(e) => {
            return Err(e);
        },
    };
    match verdict.1 {
        Some(actual) => {
            return Err(FetchError::Integrity { expected: integrity.to_owned(), actual });
        },
        None => {},
    }
    let inflated = match decompress_gzip(response) {
        Ok(bytes) => bytes,
        Err(e) => {
            return Err(e);
        },
    };
    let location = match index_location(integrity) {
        Some(location) => location,
        None => {
            return Err(FetchError::MalformedIntegrity);
        },
    };
    extract_tarball(location.as_str(), inflated)
}

} // verus!
