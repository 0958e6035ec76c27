//! Errors reported by the overlay disk.
use vstd::prelude::*;

use crate::text;

verus! {

/// Broad classification of a disk error.
#[derive(Clone, Copy, Debug, PartialEq, Eq, Structural)]
pub enum BlockErrorKind {
    /// The host failed an I/O request.
    Io,
    /// A spec, an index or a backing file does not have the required form.
    InvalidFormat,
    /// A block or byte position does not fit in 64 bits.
    Overflow,
    /// The request is not supported by this disk.
    UnsupportedFeature,
}

/// An error raised while a disk is opened or configured.
#[derive(Clone, Debug)]
pub struct BlockError {
    pub kind: BlockErrorKind,
    /// The file the error is about.
    pub path: Option<String>,
    /// What went wrong, in words.
    pub message: Option<String>,
}

/// The model of a [`BlockError`].
pub struct BlockErrorView {
    pub kind: BlockErrorKind,
    pub path: Option<Seq<char>>,
    pub message: Option<Seq<char>>,
}

impl View for BlockError {
    type V = BlockErrorView;

    open spec fn view(&self) -> BlockErrorView {
        BlockErrorView {
            kind: self.kind,
            path: text::text_view(self.path),
            message: text::text_view(self.message),
        }
    }
}

impl BlockError {
    /// An error that carries a message.
    pub fn new(kind: BlockErrorKind, message: String) -> (r: BlockError)
        ensures
            r@ == (BlockErrorView { kind, path: None, message: Some(message@) }),
    {
        BlockError { kind, path: None, message: Some(message) }
    }

    /// An error of which only the kind is known.
    pub fn from_kind(kind: BlockErrorKind) -> (r: BlockError)
        ensures
            r@ == (BlockErrorView { kind, path: None, message: None }),
    {
        BlockError { kind, path: None, message: None }
    }

    /// Records the file the error is about.
    pub fn with_path(self, path: &str) -> (r: BlockError)
        ensures
            r@ == (BlockErrorView { path: Some(path@), ..self@ }),
    {
        BlockError { kind: self.kind, path: Some(path.to_owned()), message: self.message }
    }
}

/// The error for a file whose contents are not acceptable.
pub open spec fn invalid_spec_error(path: Seq<char>, message: Seq<char>) -> BlockErrorView {
    BlockErrorView {
        kind: BlockErrorKind::InvalidFormat,
        path: Some(path),
        message: Some(message),
    }
}

/// The error for a position that does not fit in 64 bits.
pub open spec fn overflow_error() -> BlockErrorView {
    BlockErrorView { kind: BlockErrorKind::Overflow, path: None, message: None }
}

/// Builds the error for a file whose contents are not acceptable.
pub fn invalid_spec(path: &str, message: String) -> (r: BlockError)
    ensures
        r@ == invalid_spec_error(path@, message@),
{
    BlockError::new(BlockErrorKind::InvalidFormat, message).with_path(path)
}

/// `outcome` reports exactly `fault`: the error where there is one, success where there is none.
pub open spec fn reports<T>(outcome: Result<T, BlockError>, fault: Option<BlockErrorView>) -> bool {
    match fault {
        Some(f) => outcome matches Err(e) && e@ == f,
        None => outcome is Ok,
    }
}

/// Why the disk refuses a request.
#[derive(Clone, Copy, Debug, PartialEq, Eq, Structural)]
pub enum IoErrorKind {
    InvalidInput,
    PermissionDenied,
}

/// An error returned for a read, write or zero request before any file is touched.
#[derive(Clone, Debug)]
pub struct IoError {
    pub kind: IoErrorKind,
    pub message: String,
}

/// The model of an [`IoError`].
pub struct IoErrorView {
    pub kind: IoErrorKind,
    pub message: Seq<char>,
}

impl View for IoError {
    type V = IoErrorView;

    open spec fn view(&self) -> IoErrorView {
        IoErrorView { kind: self.kind, message: self.message@ }
    }
}

impl IoError {
    pub fn new(kind: IoErrorKind, message: String) -> (r: IoError)
        ensures
            r@ == (IoErrorView { kind, message: message@ }),
    {
        IoError { kind, message }
    }
}

/// What an error's model says is what the error says.
pub proof fn law_error_views(error: BlockError, io: IoError)
    ensures
        error@.kind == error.kind,
        error.path is None <==> error@.path is None,
        error.path matches Some(path) ==> error@.path == Some(path@),
        error.message is None <==> error@.message is None,
        error.message matches Some(message) ==> error@.message == Some(message@),
        io@.kind == io.kind,
        io@.message == io.message@,
{
}

/// A refused file is named together with what is wrong with it; a number that does not fit is
/// reported by its kind alone.
pub proof fn law_error_contents(path: Seq<char>, message: Seq<char>)
    ensures
        invalid_spec_error(path, message).kind is InvalidFormat,
        invalid_spec_error(path, message).path == Some(path),
        invalid_spec_error(path, message).message == Some(message),
        overflow_error().kind is Overflow,
        overflow_error().path is None,
        overflow_error().message is None,
{
}

/// An outcome that reports a fault is that error, and one that reports none is a success.
pub proof fn law_reports<T>(outcome: Result<T, BlockError>, fault: Option<BlockErrorView>)
    requires
        reports(outcome, fault),
    ensures
        fault is None <==> outcome is Ok,
        outcome matches Err(e) ==> fault == Some(e@),
{
}

} // verus!
