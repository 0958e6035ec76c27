//! Requests of a virtio queue: what each is admitted for, and the completions that answer them.
use std::collections::VecDeque;

use vstd::prelude::*;

use crate::error::{IoError, IoErrorKind, IoErrorView};
use crate::model::{RootfsView, SECTOR_SIZE};
use crate::segment;
use crate::state::{self, SegmentWalk, TensorlakeRootfsState};

verus! {

/// Why a request failed, by the kind of request.
#[derive(Debug)]
pub enum AsyncIoError {
    ReadVectored(IoError),
    WriteVectored(IoError),
    PunchHole(IoError),
    WriteZeroes(IoError),
}

/// The model of an [`AsyncIoError`].
pub enum AsyncIoErrorView {
    ReadVectored(IoErrorView),
    WriteVectored(IoErrorView),
    PunchHole(IoErrorView),
    WriteZeroes(IoErrorView),
}

impl View for AsyncIoError {
    type V = AsyncIoErrorView;

    open spec fn view(&self) -> AsyncIoErrorView {
        match self {
            AsyncIoError::ReadVectored(error) => AsyncIoErrorView::ReadVectored(error@),
            AsyncIoError::WriteVectored(error) => AsyncIoErrorView::WriteVectored(error@),
            AsyncIoError::PunchHole(error) => AsyncIoErrorView::PunchHole(error@),
            AsyncIoError::WriteZeroes(error) => AsyncIoErrorView::WriteZeroes(error@),
        }
    }
}

/// The answer to a request. `B` is the memory that the request lent to the disk.
#[derive(Debug)]
pub struct AsyncIoCompletion<B> {
    pub user_data: u64,
    /// The number of bytes that were transferred.
    pub result: i32,
    pub buffer: Option<B>,
}

/// Why a read or a write is refused.
pub open spec fn data_fault(disk: RootfsView, is_read: bool, offset: i64, len: u64) -> Option<
    AsyncIoErrorView,
> {
    let fault = if offset < 0 {
        Some(IoErrorView { kind: IoErrorKind::InvalidInput, message: "negative disk offset"@ })
    } else if is_read {
        state::range_fault(disk, offset as u64, len)
    } else {
        state::change_fault(disk, offset as u64, len)
    };
    match fault {
        None => None,
        Some(error) => Some(
            if is_read {
                AsyncIoErrorView::ReadVectored(error)
            } else {
                AsyncIoErrorView::WriteVectored(error)
            },
        ),
    }
}

/// `outcome` reports exactly `fault`, and otherwise the segments of the request.
pub open spec fn admits_request(
    outcome: Result<SegmentWalk, AsyncIoError>,
    fault: Option<AsyncIoErrorView>,
    disk: RootfsView,
    offset: int,
    len: int,
) -> bool {
    match fault {
        Some(f) => outcome matches Err(e) && e@ == f,
        None => outcome matches Ok(walk) && walk@ == segment::segments(
            disk.block_size,
            offset,
            len,
            0,
        ),
    }
}

/// The completions of one queue that were not yet taken.
#[derive(Debug)]
pub struct TensorlakeRootfsSyncIo<B> {
    completion_list: VecDeque<AsyncIoCompletion<B>>,
}

impl<B> View for TensorlakeRootfsSyncIo<B> {
    type V = Seq<AsyncIoCompletion<B>>;

    closed spec fn view(&self) -> Seq<AsyncIoCompletion<B>> {
        self.completion_list@
    }
}

/// The result of a transfer of `len` bytes: the length, cut to 32 bits.
pub open spec fn transfer_result(len: u64) -> i32 {
    len as i32
}

impl<B> TensorlakeRootfsSyncIo<B> {
    /// A queue without completions.
    pub fn new() -> (r: TensorlakeRootfsSyncIo<B>)
        ensures
            r@ == Seq::<AsyncIoCompletion<B>>::empty(),
    {
        TensorlakeRootfsSyncIo { completion_list: VecDeque::new() }
    }

    /// The alignment that requests need.
    pub fn alignment(&self) -> (r: u64)
        ensures
            r == SECTOR_SIZE,
    {
        SECTOR_SIZE
    }

    /// Admits a read or a write of `len` bytes, and splits it into segments.
    pub fn submit_data_operation(
        &self,
        state: &TensorlakeRootfsState,
        is_read: bool,
        offset: i64,
        len: u64,
    ) -> (r: Result<SegmentWalk, AsyncIoError>)
        ensures
            admits_request(
                r,
                data_fault(state@, is_read, offset, len),
                state@,
                offset as int,
                len as int,
            ),
    {
        if offset < 0 {
            let error = IoError::new(IoErrorKind::InvalidInput, "negative disk offset".to_owned());
            return Err(
                if is_read {
                    AsyncIoError::ReadVectored(error)
                } else {
                    AsyncIoError::WriteVectored(error)
                },
            );
        }
        if is_read {
            self.submit_read(state, offset as u64, len)
        } else {
            self.submit_write(state, offset as u64, len)
        }
    }

    /// Admits a read, and splits it into segments.
    pub fn submit_read(&self, state: &TensorlakeRootfsState, offset: u64, len: u64) -> (r: Result<
        SegmentWalk,
        AsyncIoError,
    >)
        ensures
            admits_request(
                r,
                match state::range_fault(state@, offset, len) {
                    Some(error) => Some(AsyncIoErrorView::ReadVectored(error)),
                    None => None,
                },
                state@,
                offset as int,
                len as int,
            ),
    {
        match state.read_at(offset, len) {
            Ok(walk) => Ok(walk),
            Err(error) => Err(AsyncIoError::ReadVectored(error)),
        }
    }

    /// Admits a write, and splits it into segments.
    pub fn submit_write(&self, state: &TensorlakeRootfsState, offset: u64, len: u64) -> (r: Result<
        SegmentWalk,
        AsyncIoError,
    >)
        ensures
            admits_request(
                r,
                match state::change_fault(state@, offset, len) {
                    Some(error) => Some(AsyncIoErrorView::WriteVectored(error)),
                    None => None,
                },
                state@,
                offset as int,
                len as int,
            ),
    {
        match state.write_at(offset, len) {
            Ok(walk) => Ok(walk),
            Err(error) => Err(AsyncIoError::WriteVectored(error)),
        }
    }

    /// Admits the punching of a hole, and splits it into segments to zero.
    pub fn punch_hole(&self, state: &TensorlakeRootfsState, offset: u64, length: u64) -> (r: Result<
        SegmentWalk,
        AsyncIoError,
    >)
        ensures
            admits_request(
                r,
                match state::change_fault(state@, offset, length) {
                    Some(error) => Some(AsyncIoErrorView::PunchHole(error)),
                    None => None,
                },
                state@,
                offset as int,
                length as int,
            ),
    {
        match state.zero_at(offset, length) {
            Ok(walk) => Ok(walk),
            Err(error) => Err(AsyncIoError::PunchHole(error)),
        }
    }

    /// Admits the writing of zeroes, and splits it into segments to zero.
    pub fn write_zeroes(&self, state: &TensorlakeRootfsState, offset: u64, length: u64) -> (r:
        Result<SegmentWalk, AsyncIoError>)
        ensures
            admits_request(
                r,
                match state::change_fault(state@, offset, length) {
                    Some(error) => Some(AsyncIoErrorView::WriteZeroes(error)),
                    None => None,
                },
                state@,
                offset as int,
                length as int,
            ),
    {
        match state.zero_at(offset, length) {
            Ok(walk) => Ok(walk),
            Err(error) => Err(AsyncIoError::WriteZeroes(error)),
        }
    }

    /// Answers a read or a write of `len` bytes that was carried out.
    pub fn complete(&mut self, user_data: u64, len: u64, buffer: B)
        ensures
            final(self)@ == old(self)@.push(
                AsyncIoCompletion { user_data, result: transfer_result(len), buffer: Some(buffer) },
            ),
    {
        self.completion_list.push_back(
            AsyncIoCompletion {
                user_data,
                result: #[verifier::truncate] (len as i32),
                buffer: Some(buffer),
            },
        );
    }

    /// Answers a request without data that was carried out.
    pub fn complete_request(&mut self, user_data: u64)
        ensures
            final(self)@ == old(self)@.push(
                AsyncIoCompletion { user_data, result: 0, buffer: None },
            ),
    {
        self.completion_list.push_back(AsyncIoCompletion { user_data, result: 0, buffer: None });
    }

    /// Answers a flush that was carried out, and tells whether there is an answer to announce.
    pub fn fsync(&mut self, user_data: Option<u64>) -> (r: bool)
        ensures
            r == user_data is Some,
            match user_data {
                Some(user_data) => final(self)@ == old(self)@.push(
                    AsyncIoCompletion { user_data, result: 0, buffer: None },
                ),
                None => final(self)@ == old(self)@,
            },
    {
        match user_data {
            Some(user_data) => {
                self.complete_request(user_data);
                true
            },
            None => false,
        }
    }

    /// Takes the oldest completion.
    pub fn next_completed_request(&mut self) -> (r: Option<AsyncIoCompletion<B>>)
        ensures
            old(self)@.len() == 0 ==> r is None && final(self)@ == old(self)@,
            old(self)@.len() > 0 ==> r == Some(old(self)@[0]) && final(self)@
                == old(self)@.drop_first(),
    {
        self.completion_list.pop_front()
    }
}

/// A read or a write is refused exactly when its offset is negative, it ends past the end of the
/// disk, or it would change a disk that was opened for reading only; and the error tells a read
/// from a write.
pub proof fn law_data_refused(disk: RootfsView, is_read: bool, offset: i64, len: u64)
    ensures
        data_fault(disk, is_read, offset, len) is None <==> offset >= 0 && offset + len
            <= disk.logical_size && (is_read || !disk.readonly),
        data_fault(disk, is_read, offset, len) matches Some(fault) ==> (fault is ReadVectored
            <==> is_read) && (fault is WriteVectored <==> !is_read),
        data_fault(disk, is_read, offset, len) matches Some(fault) ==> {
            let error = match fault {
                AsyncIoErrorView::ReadVectored(e) => e,
                AsyncIoErrorView::WriteVectored(e) => e,
                AsyncIoErrorView::PunchHole(e) => e,
                AsyncIoErrorView::WriteZeroes(e) => e,
            };
            &&& offset < 0 ==> error.kind is InvalidInput && error.message
                == "negative disk offset"@
            &&& offset >= 0 && !is_read && disk.readonly ==> error.kind is PermissionDenied
                && error.message == "Tensorlake rootfs disk is readonly"@
            &&& offset >= 0 && (is_read || !disk.readonly) ==> error.kind is InvalidInput && Some(
                error,
            ) == state::range_fault(disk, offset as u64, len)
        },
{
    if offset >= 0 {
        state::law_range_refused(disk, offset as u64, len);
        state::law_readonly_refuses_changes(disk, offset as u64, len);
    }
}

/// A request is answered with its fault, and otherwise with the segments of its range.
pub proof fn law_admitted_request(
    outcome: Result<SegmentWalk, AsyncIoError>,
    fault: Option<AsyncIoErrorView>,
    disk: RootfsView,
    offset: int,
    len: int,
)
    requires
        admits_request(outcome, fault, disk, offset, len),
    ensures
        fault is None <==> outcome is Ok,
        outcome matches Err(e) ==> fault == Some(e@),
        outcome matches Ok(walk) ==> walk@ == segment::segments(disk.block_size, offset, len, 0),
{
}

/// An error keeps its kind and what it says.
pub proof fn law_async_error_view(error: IoError)
    ensures
        AsyncIoError::ReadVectored(error)@ == AsyncIoErrorView::ReadVectored(
            IoErrorView { kind: error.kind, message: error.message@ },
        ),
        AsyncIoError::WriteVectored(error)@ == AsyncIoErrorView::WriteVectored(
            IoErrorView { kind: error.kind, message: error.message@ },
        ),
        AsyncIoError::PunchHole(error)@ == AsyncIoErrorView::PunchHole(
            IoErrorView { kind: error.kind, message: error.message@ },
        ),
        AsyncIoError::WriteZeroes(error)@ == AsyncIoErrorView::WriteZeroes(
            IoErrorView { kind: error.kind, message: error.message@ },
        ),
{
}

/// The result of a transfer is its length where that fits, and otherwise differs from it by a
/// multiple of 2^32.
pub proof fn law_transfer_result(len: u64)
    ensures
        len <= i32::MAX ==> transfer_result(len) == len,
        len % 0x1_0000_0000 < 0x8000_0000 ==> transfer_result(len) == len % 0x1_0000_0000,
        len % 0x1_0000_0000 >= 0x8000_0000 ==> transfer_result(len) == len % 0x1_0000_0000
            - 0x1_0000_0000,
{
    let low = len % 0x1_0000_0000;
    let result = len as i32;
    assert(low < 0x8000_0000 ==> result == low) by (bit_vector)
        requires
            low == len % 0x1_0000_0000,
            result == len as i32,
    ;
    assert(low >= 0x8000_0000 ==> result + 0x1_0000_0000 == low) by (bit_vector)
        requires
            low == len % 0x1_0000_0000,
            result == len as i32,
    ;
}

} // verus!
