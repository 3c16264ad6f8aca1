//! The errors that resolving and uploading can end in.

use vstd::prelude::*;

verus! {

/// Why an upload could not be prepared or carried out. Paths are the bytes
/// of the local path; the causes reported by the operating system, the
/// directory walk or the object store are kept as their messages.
#[derive(Debug)]
pub enum UploadError {
    /// A path given on the command line does not exist.
    PathNotFound(Vec<u8>),
    /// The size of a file given on the command line could not be read.
    PathNotReadable { path: Vec<u8>, source: String },
    /// A path is neither a file nor a directory, or a name in it is not
    /// valid UTF-8.
    InvalidPath(Vec<u8>),
    /// Nothing was found to upload.
    NoFiles,
    /// Walking a directory, or reading the size of a file inside it, failed.
    DirRead { path: Vec<u8>, source: String },
    /// A progress bar template was rejected.
    ProgressStyle(String),
    /// The object store client could not be set up.
    ClientInit(String),
    /// Sending a file failed.
    UploadFailed { filename: String, source: String },
    /// The system clock could not be read as a UTC time (it reads before
    /// 1970, or beyond the times that can be represented), so no timestamped
    /// prefix could be made up.
    ClockUnreadable,
}

/// The mathematical value of an [`UploadError`].
pub enum UploadErrorView {
    PathNotFound(Seq<u8>),
    PathNotReadable { path: Seq<u8>, source: Seq<char> },
    InvalidPath(Seq<u8>),
    NoFiles,
    DirRead { path: Seq<u8>, source: Seq<char> },
    ProgressStyle(Seq<char>),
    ClientInit(Seq<char>),
    UploadFailed { filename: Seq<char>, source: Seq<char> },
    ClockUnreadable,
}

impl View for UploadError {
    type V = UploadErrorView;

    open spec fn view(&self) -> UploadErrorView {
        match self {
            UploadError::PathNotFound(p) => UploadErrorView::PathNotFound(p@),
            UploadError::PathNotReadable { path, source } => UploadErrorView::PathNotReadable {
                path: path@,
                source: source@,
            },
            UploadError::InvalidPath(p) => UploadErrorView::InvalidPath(p@),
            UploadError::NoFiles => UploadErrorView::NoFiles,
            UploadError::DirRead { path, source } => UploadErrorView::DirRead {
                path: path@,
                source: source@,
            },
            UploadError::ProgressStyle(m) => UploadErrorView::ProgressStyle(m@),
            UploadError::ClientInit(m) => UploadErrorView::ClientInit(m@),
            UploadError::UploadFailed { filename, source } => UploadErrorView::UploadFailed {
                filename: filename@,
                source: source@,
            },
            UploadError::ClockUnreadable => UploadErrorView::ClockUnreadable,
        }
    }
}

} // verus!
