//! Errors of the library.
use vstd::prelude::*;
use vstd::std_specs::convert::FromSpecImpl;

verus! {

/// `polars::prelude::PolarsError`, carried as it is.
#[verifier::external_type_specification]
#[verifier::external_body]
pub struct ExPolarsError(polars::prelude::PolarsError);

/// `ethers::providers::ProviderError`, carried as it is.
#[verifier::external_type_specification]
#[verifier::external_body]
pub struct ExProviderError(ethers::providers::ProviderError);

/// `tokio::task::JoinError`, carried as it is.
#[verifier::external_type_specification]
#[verifier::external_body]
pub struct ExJoinError(tokio::task::JoinError);

/// `indicatif::style::TemplateError`, carried as it is.
#[verifier::external_type_specification]
#[verifier::external_body]
pub struct ExTemplateError(indicatif::style::TemplateError);

/// `cloud_storage::Error`, carried as it is.
#[verifier::external_type_specification]
#[verifier::external_body]
pub struct ExCloudStorageError(cloud_storage::Error);

/// `std::num::ParseIntError`, carried as it is.
#[verifier::external_type_specification]
#[verifier::external_body]
pub struct ExParseIntError(std::num::ParseIntError);

/// Error related to running the freeze function.
#[derive(Debug)]
pub enum FreezeError {
    /// Error related to processing a file path.
    FilePathError(FileError),
    /// Error related to joining a task.
    TaskFailed(tokio::task::JoinError),
    /// Error related to collecting data.
    CollectError(CollectError),
    /// Error related to the progress bar.
    ProgressBarError(indicatif::style::TemplateError),
    /// Parse error.
    ParseError(ParseError),
    /// Upload error due to a cloud storage error.
    UploadError(cloud_storage::Error),
}

/// Error related to data collection.
#[derive(Debug)]
pub enum CollectError {
    /// General collection error.
    CollectError(String),
    /// Error related to provider operations.
    ProviderError(ethers::providers::ProviderError),
    /// Error related to a task.
    TaskFailed(tokio::task::JoinError),
    /// Error related to data frame operations.
    PolarsError(polars::prelude::PolarsError),
    /// Error related to log topic filtering.
    InvalidNumberOfTopics,
    /// Error related to a bad schema.
    BadSchemaError,
    /// Error related to too many requests.
    TooManyRequestsError,
    /// Generic RPC error.
    RPCError(String),
}

/// Error related to parsing.
#[derive(Debug)]
pub enum ParseError {
    /// Error related to parsing.
    ParseError(String),
    /// Error related to provider operations.
    ProviderError(ethers::providers::ProviderError),
    /// Integer parse error.
    ParseIntError(std::num::ParseIntError),
}

/// Error performing a chunk operation.
#[derive(Debug)]
pub enum ChunkError {
    /// Error in the chunk's specification.
    InvalidChunk,
    /// Error in creating a chunk stub.
    StubError,
}

/// Error related to file operations.
#[derive(Debug)]
pub enum FileError {
    /// Error in creating a file path.
    FilePathError(ChunkError),
    /// File path not given.
    NoFilePathError(String),
    /// Error in writing a file.
    FileWriteError,
}

impl CollectError {
    /// The error is a general collection error with the given text.
    pub open spec fn says(self, text: Seq<char>) -> bool {
        self matches CollectError::CollectError(s) && s@ == text
    }
}

impl From<FileError> for FreezeError {
    fn from(e: FileError) -> (r: Self) {
        FreezeError::FilePathError(e)
    }
}

impl FromSpecImpl<FileError> for FreezeError {
    open spec fn obeys_from_spec() -> bool {
        true
    }

    open spec fn from_spec(e: FileError) -> Self {
        FreezeError::FilePathError(e)
    }
}

impl From<CollectError> for FreezeError {
    fn from(e: CollectError) -> (r: Self) {
        FreezeError::CollectError(e)
    }
}

impl FromSpecImpl<CollectError> for FreezeError {
    open spec fn obeys_from_spec() -> bool {
        true
    }

    open spec fn from_spec(e: CollectError) -> Self {
        FreezeError::CollectError(e)
    }
}

impl From<indicatif::style::TemplateError> for FreezeError {
    fn from(e: indicatif::style::TemplateError) -> (r: Self) {
        FreezeError::ProgressBarError(e)
    }
}

impl FromSpecImpl<indicatif::style::TemplateError> for FreezeError {
    open spec fn obeys_from_spec() -> bool {
        true
    }

    open spec fn from_spec(e: indicatif::style::TemplateError) -> Self {
        FreezeError::ProgressBarError(e)
    }
}

impl From<ParseError> for FreezeError {
    fn from(e: ParseError) -> (r: Self) {
        FreezeError::ParseError(e)
    }
}

impl FromSpecImpl<ParseError> for FreezeError {
    open spec fn obeys_from_spec() -> bool {
        true
    }

    open spec fn from_spec(e: ParseError) -> Self {
        FreezeError::ParseError(e)
    }
}

impl From<cloud_storage::Error> for FreezeError {
    fn from(e: cloud_storage::Error) -> (r: Self) {
        FreezeError::UploadError(e)
    }
}

impl FromSpecImpl<cloud_storage::Error> for FreezeError {
    open spec fn obeys_from_spec() -> bool {
        true
    }

    open spec fn from_spec(e: cloud_storage::Error) -> Self {
        FreezeError::UploadError(e)
    }
}

impl From<polars::prelude::PolarsError> for CollectError {
    fn from(e: polars::prelude::PolarsError) -> (r: Self) {
        CollectError::PolarsError(e)
    }
}

impl FromSpecImpl<polars::prelude::PolarsError> for CollectError {
    open spec fn obeys_from_spec() -> bool {
        true
    }

    open spec fn from_spec(e: polars::prelude::PolarsError) -> Self {
        CollectError::PolarsError(e)
    }
}

impl From<std::num::ParseIntError> for ParseError {
    fn from(e: std::num::ParseIntError) -> (r: Self) {
        ParseError::ParseIntError(e)
    }
}

impl FromSpecImpl<std::num::ParseIntError> for ParseError {
    open spec fn obeys_from_spec() -> bool {
        true
    }

    open spec fn from_spec(e: std::num::ParseIntError) -> Self {
        ParseError::ParseIntError(e)
    }
}

impl From<ChunkError> for FileError {
    fn from(e: ChunkError) -> (r: Self) {
        FileError::FilePathError(e)
    }
}

impl FromSpecImpl<ChunkError> for FileError {
    open spec fn obeys_from_spec() -> bool {
        true
    }

    open spec fn from_spec(e: ChunkError) -> Self {
        FileError::FilePathError(e)
    }
}

} // verus!
