//! Directory-driven batch conversion job tracker: the job model, its status
//! machine, rule resolution, and content hashing of scanned files.

pub mod batch;
pub mod command;
pub mod digest;
pub mod paths;

pub use batch::{
    config_path, BatchJob, Invocation, Job, JobError, JobStatus, ScannedFile, CONFIG_FILE_NAME,
    DEFAULT_COMMAND, DEFAULT_EXTENSION,
};
pub use digest::ContentDigest;
