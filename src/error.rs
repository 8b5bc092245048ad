use vstd::prelude::*;

verus! {

/// Every way in which processing one image can end without a description.
#[derive(Debug)]
pub enum ImageAnalysisError {
    EmptyFile { filename: String },
    HttpError { status: u16, filename: String, response: String },
    EmptyResponse { filename: String },
    JsonParsing { filename: String, error: String },
    FileWriteTimeout { timeout: u64, filename: String },
    ProcessingError { filename: String, error: String },
    AlreadyProcessed { filename: String },
    DatabaseError { error: String },
    InvalidUuid { filename: String },
    InvalidImmichStructure { error: String },
    AllHostsUnavailable,
    OllamaRequestTimeout,
    LlamaCppRequestTimeout,
}

/// The contents of an `ImageAnalysisError`, with its texts as sequences of
/// characters.
pub enum ErrorView {
    EmptyFile { filename: Seq<char> },
    HttpError { status: u16, filename: Seq<char>, response: Seq<char> },
    EmptyResponse { filename: Seq<char> },
    JsonParsing { filename: Seq<char>, error: Seq<char> },
    FileWriteTimeout { timeout: u64, filename: Seq<char> },
    ProcessingError { filename: Seq<char>, error: Seq<char> },
    AlreadyProcessed { filename: Seq<char> },
    DatabaseError { error: Seq<char> },
    InvalidUuid { filename: Seq<char> },
    InvalidImmichStructure { error: Seq<char> },
    AllHostsUnavailable,
    OllamaRequestTimeout,
    LlamaCppRequestTimeout,
}

impl View for ImageAnalysisError {
    type V = ErrorView;

    open spec fn view(&self) -> ErrorView {
        match self {
            ImageAnalysisError::EmptyFile { filename } => ErrorView::EmptyFile {
                filename: filename@,
            },
            ImageAnalysisError::HttpError { status, filename, response } => ErrorView::HttpError {
                status: *status,
                filename: filename@,
                response: response@,
            },
            ImageAnalysisError::EmptyResponse { filename } => ErrorView::EmptyResponse {
                filename: filename@,
            },
            ImageAnalysisError::JsonParsing { filename, error } => ErrorView::JsonParsing {
                filename: filename@,
                error: error@,
            },
            ImageAnalysisError::FileWriteTimeout { timeout, filename } => ErrorView::FileWriteTimeout {
                timeout: *timeout,
                filename: filename@,
            },
            ImageAnalysisError::ProcessingError { filename, error } => ErrorView::ProcessingError {
                filename: filename@,
                error: error@,
            },
            ImageAnalysisError::AlreadyProcessed { filename } => ErrorView::AlreadyProcessed {
                filename: filename@,
            },
            ImageAnalysisError::DatabaseError { error } => ErrorView::DatabaseError { error: error@ },
            ImageAnalysisError::InvalidUuid { filename } => ErrorView::InvalidUuid {
                filename: filename@,
            },
            ImageAnalysisError::InvalidImmichStructure { error } => ErrorView::InvalidImmichStructure {
                error: error@,
            },
            ImageAnalysisError::AllHostsUnavailable => ErrorView::AllHostsUnavailable,
            ImageAnalysisError::OllamaRequestTimeout => ErrorView::OllamaRequestTimeout,
            ImageAnalysisError::LlamaCppRequestTimeout => ErrorView::LlamaCppRequestTimeout,
        }
    }
}

/// A text result seen through the views of its text and of its error.
pub open spec fn text_result_view(r: Result<String, ImageAnalysisError>) -> Result<
    Seq<char>,
    ErrorView,
> {
    match r {
        Ok(s) => Ok(s@),
        Err(e) => Err(e@),
    }
}

/// How an outcome counts in a report.
#[derive(Debug, Clone, Copy, PartialEq, Eq, Structural)]
pub enum OutcomeClass {
    Succeeded,
    Failed,
    Skipped,
}

/// Duplicates and unrecognised filenames are skips; every other error is a
/// failure.
pub open spec fn error_class(e: ErrorView) -> OutcomeClass {
    match e {
        ErrorView::AlreadyProcessed { .. } => OutcomeClass::Skipped,
        ErrorView::InvalidUuid { .. } => OutcomeClass::Skipped,
        _ => OutcomeClass::Failed,
    }
}

impl ImageAnalysisError {
    /// How this error counts in a report.
    pub fn class(&self) -> (r: OutcomeClass)
        ensures
            r == error_class(self@),
    {
        match self {
            ImageAnalysisError::AlreadyProcessed { .. } => OutcomeClass::Skipped,
            ImageAnalysisError::InvalidUuid { .. } => OutcomeClass::Skipped,
            _ => OutcomeClass::Failed,
        }
    }
}

} // verus!
