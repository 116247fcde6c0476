//! The integers that cross the sandbox boundary.
//!
//! A guest hands the host one 32-bit handle and gets one 32-bit status back.
//! Both pack a block of the guest's memory page as `offset * 65536 + length`,
//! with a length of at least one.  A status whose lower half is zero is no
//! block: zero itself reports success without a result, and `n * 65536`
//! reports the failure with the number `n`:
//!
//! | n  | failure                         |
//! |----|---------------------------------|
//! | 1  | `Unspecified`                   |
//! | 2  | `ArgumentDeserializationFailed` |
//! | 3  | `OutOfMemory`                   |
//! | 4  | `ReceivedWrongActionResult`     |
//! | 5  | `CallbackFailed`                |
//! | 6  | `RecursiveCallForbidden`        |
//! | 7  | `ResponseSerializationFailed`   |
//! | 8  | `NotAnAllocation`               |
//! | 9  | `ZeroSizedAllocation`           |
//! | 10 | `UnknownEntryType`              |
//!
//! Guest code depends on these numbers; they do not change.

use vstd::prelude::*;

verus! {

/// Size of the guest's memory page, and the factor between the two halves of
/// a handle.
pub const PAGE_SIZE: u32 = 65536;

/// A failure that the host reports across the boundary.
#[derive(Clone, Copy, Debug, PartialEq, Eq, Structural)]
pub enum RibosomeErrorCode {
    Unspecified,
    ArgumentDeserializationFailed,
    OutOfMemory,
    ReceivedWrongActionResult,
    CallbackFailed,
    RecursiveCallForbidden,
    ResponseSerializationFailed,
    NotAnAllocation,
    ZeroSizedAllocation,
    UnknownEntryType,
}

/// A block of the guest's memory page.
#[derive(Clone, Copy, Debug, PartialEq, Eq, Structural)]
pub struct Allocation {
    pub offset: u16,
    pub length: u16,
}

/// What a status says.
#[derive(Clone, Copy, Debug, PartialEq, Eq, Structural)]
pub enum Status {
    /// Success, with no result to read.
    Success,
    /// Success; the result stands in the block.
    Stored(Allocation),
    /// The call failed.
    Failed(RibosomeErrorCode),
    /// The integer is none of the above.
    Unassigned,
}

impl RibosomeErrorCode {
    /// The failure's number.
    pub open spec fn number(self) -> int {
        match self {
            RibosomeErrorCode::Unspecified => 1,
            RibosomeErrorCode::ArgumentDeserializationFailed => 2,
            RibosomeErrorCode::OutOfMemory => 3,
            RibosomeErrorCode::ReceivedWrongActionResult => 4,
            RibosomeErrorCode::CallbackFailed => 5,
            RibosomeErrorCode::RecursiveCallForbidden => 6,
            RibosomeErrorCode::ResponseSerializationFailed => 7,
            RibosomeErrorCode::NotAnAllocation => 8,
            RibosomeErrorCode::ZeroSizedAllocation => 9,
            RibosomeErrorCode::UnknownEntryType => 10,
        }
    }

    /// The status that reports the failure.
    pub open spec fn status(self) -> int {
        self.number() * 65536
    }

    /// The failure with the given number, if the number is assigned.
    pub open spec fn numbered(n: int) -> Option<RibosomeErrorCode> {
        if n == 1 {
            Some(RibosomeErrorCode::Unspecified)
        } else if n == 2 {
            Some(RibosomeErrorCode::ArgumentDeserializationFailed)
        } else if n == 3 {
            Some(RibosomeErrorCode::OutOfMemory)
        } else if n == 4 {
            Some(RibosomeErrorCode::ReceivedWrongActionResult)
        } else if n == 5 {
            Some(RibosomeErrorCode::CallbackFailed)
        } else if n == 6 {
            Some(RibosomeErrorCode::RecursiveCallForbidden)
        } else if n == 7 {
            Some(RibosomeErrorCode::ResponseSerializationFailed)
        } else if n == 8 {
            Some(RibosomeErrorCode::NotAnAllocation)
        } else if n == 9 {
            Some(RibosomeErrorCode::ZeroSizedAllocation)
        } else if n == 10 {
            Some(RibosomeErrorCode::UnknownEntryType)
        } else {
            None
        }
    }

    /// The status that reports the failure.
    pub fn code(&self) -> (r: u32)
        ensures
            r == self.status(),
    {
        let n: u32 = match self {
            RibosomeErrorCode::Unspecified => 1,
            RibosomeErrorCode::ArgumentDeserializationFailed => 2,
            RibosomeErrorCode::OutOfMemory => 3,
            RibosomeErrorCode::ReceivedWrongActionResult => 4,
            RibosomeErrorCode::CallbackFailed => 5,
            RibosomeErrorCode::RecursiveCallForbidden => 6,
            RibosomeErrorCode::ResponseSerializationFailed => 7,
            RibosomeErrorCode::NotAnAllocation => 8,
            RibosomeErrorCode::ZeroSizedAllocation => 9,
            RibosomeErrorCode::UnknownEntryType => 10,
        };
        n * PAGE_SIZE
    }

    /// The failure with the given number, if the number is assigned.
    pub fn from_number(n: u32) -> (r: Option<RibosomeErrorCode>)
        ensures
            r == RibosomeErrorCode::numbered(n as int),
    {
        if n == 1 {
            Some(RibosomeErrorCode::Unspecified)
        } else if n == 2 {
            Some(RibosomeErrorCode::ArgumentDeserializationFailed)
        } else if n == 3 {
            Some(RibosomeErrorCode::OutOfMemory)
        } else if n == 4 {
            Some(RibosomeErrorCode::ReceivedWrongActionResult)
        } else if n == 5 {
            Some(RibosomeErrorCode::CallbackFailed)
        } else if n == 6 {
            Some(RibosomeErrorCode::RecursiveCallForbidden)
        } else if n == 7 {
            Some(RibosomeErrorCode::ResponseSerializationFailed)
        } else if n == 8 {
            Some(RibosomeErrorCode::NotAnAllocation)
        } else if n == 9 {
            Some(RibosomeErrorCode::ZeroSizedAllocation)
        } else if n == 10 {
            Some(RibosomeErrorCode::UnknownEntryType)
        } else {
            None
        }
    }
}

impl Allocation {
    /// The block is not empty and lies within the page.
    pub open spec fn fits(self) -> bool {
        self.length >= 1 && self.offset + self.length <= 65536
    }

    /// The handle of the block.
    pub open spec fn handle(self) -> int {
        self.offset * 65536 + self.length
    }

    /// The block of `length` bytes at `offset`.  An empty block is refused as
    /// `ZeroSizedAllocation`, one that leaves the page as `OutOfMemory`.
    pub fn new(offset: u16, length: u16) -> (r: Result<Allocation, RibosomeErrorCode>)
        ensures
            r == (if length == 0 {
                Err::<Allocation, RibosomeErrorCode>(RibosomeErrorCode::ZeroSizedAllocation)
            } else if offset + length > 65536 {
                Err(RibosomeErrorCode::OutOfMemory)
            } else {
                Ok(Allocation { offset, length })
            }),
    {
        if length == 0 {
            Err(RibosomeErrorCode::ZeroSizedAllocation)
        } else if offset as u32 + length as u32 > PAGE_SIZE {
            Err(RibosomeErrorCode::OutOfMemory)
        } else {
            Ok(Allocation { offset, length })
        }
    }

    /// The handle of the block.
    pub fn encode(&self) -> (r: u32)
        ensures
            r == self.handle(),
    {
        self.offset as u32 * PAGE_SIZE + self.length as u32
    }
}

/// What the integer `status` says.
pub open spec fn status_meaning(status: u32) -> Status {
    let upper = status / 65536;
    let lower = status % 65536;
    if status == 0 {
        Status::Success
    } else if lower == 0 {
        match RibosomeErrorCode::numbered(upper as int) {
            Some(code) => Status::Failed(code),
            None => Status::Unassigned,
        }
    } else if upper + lower <= 65536 {
        Status::Stored(Allocation { offset: upper as u16, length: lower as u16 })
    } else {
        Status::Unassigned
    }
}

/// Reads a status, or a handle that a guest passed in.
pub fn decode_status(status: u32) -> (r: Status)
    ensures
        r == status_meaning(status),
{
    let upper: u32 = status / PAGE_SIZE;
    let lower: u32 = status % PAGE_SIZE;
    if status == 0 {
        Status::Success
    } else if lower == 0 {
        match RibosomeErrorCode::from_number(upper) {
            Some(code) => Status::Failed(code),
            None => Status::Unassigned,
        }
    } else if upper + lower <= PAGE_SIZE {
        Status::Stored(Allocation { offset: upper as u16, length: lower as u16 })
    } else {
        Status::Unassigned
    }
}

/// A failure's status reads back as that failure.
pub proof fn lemma_failure_round_trip(code: RibosomeErrorCode)
    ensures
        0 < code.status() <= u32::MAX,
        status_meaning(code.status() as u32) == Status::Failed(code),
{
}

/// The handle of a block that fits reads back as that block.
pub proof fn lemma_block_round_trip(block: Allocation)
    requires
        block.fits(),
    ensures
        0 < block.handle() <= u32::MAX,
        status_meaning(block.handle() as u32) == Status::Stored(block),
{
    let h = block.handle();
    assert(h / 65536 == block.offset && h % 65536 == block.length) by (nonlinear_arith)
        requires
            h == block.offset * 65536 + block.length,
            0 <= block.length < 65536,
            0 <= block.offset,
    ;
}

/// Every integer that reads as a block is the handle of that block, and the
/// block fits; every integer that reads as a failure is that failure's status.
pub proof fn lemma_status_read_back(status: u32)
    ensures
        status_meaning(status) matches Status::Stored(block) ==> block.fits() && block.handle()
            == status,
        status_meaning(status) matches Status::Failed(code) ==> code.status() == status,
{
    let upper = status / 65536;
    let lower = status % 65536;
    assert(status == upper * 65536 + lower);
}

} // verus!
