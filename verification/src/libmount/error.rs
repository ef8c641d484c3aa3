use core::marker::PhantomData;
use vstd::prelude::*;
use vstd::std_specs::convert::FromSpecImpl;

use crate::libmount::fs::FileSystem;
use crate::libmount::iter::IterInternal;
use crate::libmount::monitor::Monitor;
use crate::libmount::table::{Table, TableDiff};

verus! {

/// Failure to obtain the resource `T` from the operating system.
#[derive(Debug, PartialEq, Eq)]
#[verifier::reject_recursive_types(T)]
pub struct AllocationError<T>(pub PhantomData<T>);

impl<T> Clone for AllocationError<T> {
    fn clone(&self) -> (r: Self)
        ensures
            r == *self,
    {
        AllocationError(PhantomData)
    }
}

impl<T> Copy for AllocationError<T> {

}

impl<T> Default for AllocationError<T> {
    fn default() -> (r: Self)
        ensures
            r == AllocationError::<T>(PhantomData),
    {
        AllocationError(PhantomData)
    }
}

/// Everything that can go wrong while observing the mount table.
#[derive(Debug, Clone, Copy, PartialEq, Eq)]
pub enum Error {
    /// No monitor could be had.
    AllocationMonitor(AllocationError<Monitor>),
    /// No comparison of two tables could be had.
    AllocationTableDiff(AllocationError<TableDiff>),
    /// No table could be had, or the table could not be read.
    AllocationTable(AllocationError<Table>),
    /// No cursor could be had.
    AllocationIter(AllocationError<IterInternal>),
    /// No row could be had.
    AllocationFileSystem(AllocationError<FileSystem>),
    /// Kernel notifications could not be switched on or off.
    MonitorKernel,
    /// Userspace notifications could not be switched on or off.
    MonitorUserspace,
    /// The blocking wait failed with this code.
    MonitorPoll(i32),
    /// Taking the next pending notification failed with this code.
    MonitorNextChange(i32),
    /// A notification named a channel that is neither kernel nor userspace.
    UndefinedMonitorType(u32),
    /// A cursor direction that is neither forward nor backward.
    UndefinedDirection(u32),
    /// A change whose kind is none of the five known ones.
    UndefinedDiffOperation(u32),
}

impl FromSpecImpl<AllocationError<Monitor>> for Error {
    open spec fn obeys_from_spec() -> bool {
        true
    }

    open spec fn from_spec(value: AllocationError<Monitor>) -> Error {
        Error::AllocationMonitor(value)
    }
}

impl From<AllocationError<Monitor>> for Error {
    fn from(value: AllocationError<Monitor>) -> (r: Error) {
        Error::AllocationMonitor(value)
    }
}

impl FromSpecImpl<AllocationError<TableDiff>> for Error {
    open spec fn obeys_from_spec() -> bool {
        true
    }

    open spec fn from_spec(value: AllocationError<TableDiff>) -> Error {
        Error::AllocationTableDiff(value)
    }
}

impl From<AllocationError<TableDiff>> for Error {
    fn from(value: AllocationError<TableDiff>) -> (r: Error) {
        Error::AllocationTableDiff(value)
    }
}

impl FromSpecImpl<AllocationError<Table>> for Error {
    open spec fn obeys_from_spec() -> bool {
        true
    }

    open spec fn from_spec(value: AllocationError<Table>) -> Error {
        Error::AllocationTable(value)
    }
}

impl From<AllocationError<Table>> for Error {
    fn from(value: AllocationError<Table>) -> (r: Error) {
        Error::AllocationTable(value)
    }
}

impl FromSpecImpl<AllocationError<IterInternal>> for Error {
    open spec fn obeys_from_spec() -> bool {
        true
    }

    open spec fn from_spec(value: AllocationError<IterInternal>) -> Error {
        Error::AllocationIter(value)
    }
}

impl From<AllocationError<IterInternal>> for Error {
    fn from(value: AllocationError<IterInternal>) -> (r: Error) {
        Error::AllocationIter(value)
    }
}

impl FromSpecImpl<AllocationError<FileSystem>> for Error {
    open spec fn obeys_from_spec() -> bool {
        true
    }

    open spec fn from_spec(value: AllocationError<FileSystem>) -> Error {
        Error::AllocationFileSystem(value)
    }
}

impl From<AllocationError<FileSystem>> for Error {
    fn from(value: AllocationError<FileSystem>) -> (r: Error) {
        Error::AllocationFileSystem(value)
    }
}

/// Why a task did not run to its end.
#[derive(Debug, Clone, Copy, PartialEq, Eq, Structural)]
pub enum TaskFailure {
    Cancelled,
    Panicked,
}

/// A failure of the operating system, with its error number where it has
/// one.
#[derive(Debug, Clone, Copy, PartialEq, Eq)]
pub struct IoFailure {
    pub code: Option<i32>,
}

/// Everything that can go wrong while events are served to handlers that
/// fail with `E`.
#[derive(Debug, PartialEq, Eq)]
pub enum ServeError<E> {
    /// The pipeline itself failed.
    LibMount(Error),
    /// A handler failed.
    Handler(E),
    /// A task of the pipeline did not run to its end.
    JoinError(TaskFailure),
    /// Waiting for the interrupt signal failed.
    IO(IoFailure),
}

/// The unsigned reading of a raw status code: negative codes wrap around, as
/// a conversion between two 32-bit integers does.
pub open spec fn spec_unsigned(code: i32) -> u32 {
    if code >= 0 {
        code as u32
    } else {
        (code + 0x1_0000_0000) as u32
    }
}

/// Reads a raw status code as an unsigned number.
pub fn unsigned(code: i32) -> (r: u32)
    ensures
        r == spec_unsigned(code),
{
    if code >= 0 {
        code as u32
    } else {
        let low: i32 = code - i32::MIN;
        low as u32 + 0x8000_0000u32
    }
}

} // verus!
