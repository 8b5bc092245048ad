use vstd::prelude::*;

use crate::asset::{AssetId, extract_uuid_from_preview_filename, resolved_id};
use crate::error::{ErrorView, ImageAnalysisError};

verus! {

/// A description ready to be stored under its asset identifier.
#[derive(Debug)]
pub struct ImageAnalysisResult {
    pub description: String,
    pub asset_id: AssetId,
}

/// The next outside step of a pipeline run.
#[derive(Debug)]
pub enum PipelineStep {
    /// Ask the store whether the asset already has a description.
    CheckExisting(AssetId),
    /// Read the file's bytes.
    ReadFile(AssetId),
    /// Send the bytes to the backends.
    Analyze(AssetId),
    /// Store the description under the asset.
    Persist(AssetId, String),
}

/// Resolves the filename; the run goes on with the duplicate check, or
/// straight to reading the file when existing descriptions are ignored.
pub fn begin(filename: &str, ignore_existing: bool) -> (r: Result<PipelineStep, ImageAnalysisError>)
    ensures
        resolved_id(filename@) is None ==> (r matches Err(e) && e@ == ErrorView::InvalidUuid {
            filename: filename@,
        }),
        resolved_id(filename@) matches Some(v) ==> (!ignore_existing ==> (r matches Ok(
            PipelineStep::CheckExisting(id),
        ) && id.0 as int == v)),
        resolved_id(filename@) matches Some(v) ==> (ignore_existing ==> (r matches Ok(
            PipelineStep::ReadFile(id),
        ) && id.0 as int == v)),
{
    match extract_uuid_from_preview_filename(filename) {
        Ok(id) => if ignore_existing {
            Ok(PipelineStep::ReadFile(id))
        } else {
            Ok(PipelineStep::CheckExisting(id))
        },
        Err(e) => Err(e),
    }
}

/// After the duplicate check: a stored description ends the run with
/// `AlreadyProcessed`, a failed query with `DatabaseError`; otherwise the
/// file is read next.
pub fn after_existing_check(
    asset_id: AssetId,
    filename: &str,
    found: Result<bool, String>,
) -> (r: Result<PipelineStep, ImageAnalysisError>)
    ensures
        found matches Ok(true) ==> (r matches Err(e) && e@ == ErrorView::AlreadyProcessed {
            filename: filename@,
        }),
        found matches Ok(false) ==> r == Ok::<PipelineStep, ImageAnalysisError>(
            PipelineStep::ReadFile(asset_id),
        ),
        found matches Err(m) ==> (r matches Err(e) && e@ == ErrorView::DatabaseError {
            error: m@,
        }),
{
    match found {
        Ok(true) => Err(ImageAnalysisError::AlreadyProcessed { filename: String::from_str(filename) }),
        Ok(false) => Ok(PipelineStep::ReadFile(asset_id)),
        Err(error) => Err(ImageAnalysisError::DatabaseError { error }),
    }
}

/// After reading the file, given its length in bytes: an empty file ends
/// the run with `EmptyFile`, a failed read with `ProcessingError`; otherwise
/// the bytes are analysed next.
pub fn after_read(asset_id: AssetId, filename: &str, read: Result<usize, String>) -> (r: Result<
    PipelineStep,
    ImageAnalysisError,
>)
    ensures
        read matches Ok(n) ==> (n == 0 ==> (r matches Err(e) && e@ == ErrorView::EmptyFile {
            filename: filename@,
        })),
        read matches Ok(n) ==> (n > 0 ==> r == Ok::<PipelineStep, ImageAnalysisError>(
            PipelineStep::Analyze(asset_id),
        )),
        read matches Err(m) ==> (r matches Err(e) && e@ == ErrorView::ProcessingError {
            filename: filename@,
            error: m@,
        }),
{
    match read {
        Ok(n) => if n == 0 {
            Err(ImageAnalysisError::EmptyFile { filename: String::from_str(filename) })
        } else {
            Ok(PipelineStep::Analyze(asset_id))
        },
        Err(error) => Err(
            ImageAnalysisError::ProcessingError { filename: String::from_str(filename), error },
        ),
    }
}

/// After the backends answered: a description is stored next; an error
/// ends the run as it is.
pub fn after_analysis(asset_id: AssetId, analysis: Result<String, ImageAnalysisError>) -> (r: Result<
    PipelineStep,
    ImageAnalysisError,
>)
    ensures
        analysis matches Ok(d) ==> (r matches Ok(PipelineStep::Persist(id, d2)) && id == asset_id
            && d2@ == d@),
        analysis matches Err(e) ==> (r matches Err(e2) && e2@ == e@),
{
    match analysis {
        Ok(d) => Ok(PipelineStep::Persist(asset_id, d)),
        Err(e) => Err(e),
    }
}

/// After storing: the run ends with the description, or with
/// `DatabaseError` when the store refused it.
pub fn after_persist(asset_id: AssetId, description: String, stored: Result<(), String>) -> (r: Result<
    ImageAnalysisResult,
    ImageAnalysisError,
>)
    ensures
        stored is Ok ==> (r matches Ok(res) && res.asset_id == asset_id && res.description@
            == description@),
        stored matches Err(m) ==> (r matches Err(e) && e@ == ErrorView::DatabaseError {
            error: m@,
        }),
{
    match stored {
        Ok(()) => Ok(ImageAnalysisResult { description, asset_id }),
        Err(error) => Err(ImageAnalysisError::DatabaseError { error }),
    }
}

} // verus!
