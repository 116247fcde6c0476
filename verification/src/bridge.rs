//! The host's side of a guest's `query` call.
//!
//! The guest passes the handle of a block in its memory that holds the
//! query's JSON text.  The host reads the block, answers the query from the
//! agent's chain, writes the answer's JSON text into a fresh block of the
//! guest's memory and returns that block's handle; or it writes nothing and
//! returns the status of a failure.
//!
//! Reading and writing the guest's memory is the embedder's work.  This
//! module decides everything else: which block to read, what the answer is,
//! how large a block the answer needs, and which status goes back.

use vstd::prelude::*;
use vstd::utf8::{decode_utf8, valid_utf8};
use crate::args::{json_array, query_args_of, write_string_list, QueryArgs, QueryArgsModel};
use crate::text::strings_of;
use crate::chain::{query_result, Chain, ChainModel, QueryError};
use crate::status::{decode_status, status_meaning, Allocation, RibosomeErrorCode, Status};

verus! {

/// What the host does after it has answered: store a payload, or fail.
#[derive(Debug, PartialEq, Eq)]
pub enum BridgeReply {
    /// The call succeeded; the text is to be stored in the guest's memory.
    Store(String),
    /// The call failed; nothing is to be stored.
    Fail(RibosomeErrorCode),
}

/// The mathematical value of a [`BridgeReply`].
pub enum ReplyModel {
    Store(Seq<char>),
    Fail(RibosomeErrorCode),
}

impl View for BridgeReply {
    type V = ReplyModel;

    open spec fn view(&self) -> ReplyModel {
        match self {
            BridgeReply::Store(text) => ReplyModel::Store(text@),
            BridgeReply::Fail(code) => ReplyModel::Fail(*code),
        }
    }
}

// ---------------------------------------------------------------------------
// What a call returns
// ---------------------------------------------------------------------------

/// The block that a guest's handle names.  A handle that names no block
/// leaves no argument to read.
pub open spec fn handle_block(handle: u32) -> Result<Allocation, RibosomeErrorCode> {
    match status_meaning(handle) {
        Status::Stored(block) => Ok(block),
        _ => Err(RibosomeErrorCode::ArgumentDeserializationFailed),
    }
}

/// The text that the bytes of an argument block hold, if they are UTF-8.
pub open spec fn argument_text(bytes: Seq<u8>) -> Option<Seq<char>> {
    if valid_utf8(bytes) {
        Some(decode_utf8(bytes))
    } else {
        None
    }
}

/// The status under which a failed query crosses the boundary.
pub open spec fn boundary_code(e: QueryError) -> RibosomeErrorCode {
    match e {
        QueryError::MalformedPattern => RibosomeErrorCode::ArgumentDeserializationFailed,
        QueryError::UnknownEntryType => RibosomeErrorCode::UnknownEntryType,
    }
}

/// The query that the bytes of an argument block state, or the failure to
/// report when they state none.
pub open spec fn decoded(argument: Seq<u8>) -> Result<QueryArgsModel, RibosomeErrorCode> {
    match argument_text(argument) {
        None => Err(RibosomeErrorCode::ArgumentDeserializationFailed),
        Some(text) => match query_args_of(text) {
            None => Err(RibosomeErrorCode::ArgumentDeserializationFailed),
            Some(args) => Ok(args),
        },
    }
}

/// The addresses that answer the query `args`, asked of `chain` from its
/// newest header; or the failure to report.
pub open spec fn asked(chain: ChainModel, args: QueryArgsModel) -> Result<
    Seq<Seq<char>>,
    RibosomeErrorCode,
> {
    match query_result(
        chain,
        chain.top,
        args.entry_type_names.patterns(),
        args.start,
        args.limit,
    ) {
        Ok(found) => Ok(found),
        Err(e) => Err(boundary_code(e)),
    }
}

/// The addresses that answer the query held in `argument`, asked of `chain`
/// from its newest header; or the failure to report.
pub open spec fn answer(chain: ChainModel, argument: Seq<u8>) -> Result<
    Seq<Seq<char>>,
    RibosomeErrorCode,
> {
    match decoded(argument) {
        Err(code) => Err(code),
        Ok(args) => asked(chain, args),
    }
}

/// What the host does with an answer: it stores the JSON array of the
/// addresses, or reports the failure.
pub open spec fn reply_to(answer: Result<Seq<Seq<char>>, RibosomeErrorCode>) -> ReplyModel {
    match answer {
        Err(code) => ReplyModel::Fail(code),
        Ok(found) => ReplyModel::Store(json_array(found)),
    }
}

/// The number of bytes of a text.
pub open spec fn byte_length(text: Seq<char>) -> nat {
    vstd::utf8::encode_utf8(text).len()
}

/// The block that the reply asks for, once the allocator has offered room at
/// `offset` (or none): the payload's bytes exactly, within the page.  A
/// failure keeps its status, and a payload without a block is out of memory.
pub open spec fn store_block(reply: ReplyModel, offset: Option<u16>) -> Result<
    Allocation,
    RibosomeErrorCode,
> {
    match reply {
        ReplyModel::Fail(code) => Err(code),
        ReplyModel::Store(text) => if byte_length(text) == 0 {
            Err(RibosomeErrorCode::ZeroSizedAllocation)
        } else if byte_length(text) > 65535 {
            Err(RibosomeErrorCode::OutOfMemory)
        } else {
            match offset {
                None => Err(RibosomeErrorCode::OutOfMemory),
                Some(at) => if at + byte_length(text) > 65536 {
                    Err(RibosomeErrorCode::OutOfMemory)
                } else {
                    Ok(Allocation { offset: at, length: byte_length(text) as u16 })
                },
            }
        },
    }
}

/// The status that ends the call.
pub open spec fn final_status(plan: Result<Allocation, RibosomeErrorCode>) -> int {
    match plan {
        Ok(block) => block.handle(),
        Err(code) => code.status(),
    }
}

// ---------------------------------------------------------------------------
// The steps of a call
// ---------------------------------------------------------------------------

/// The value of an optional string slice.
pub open spec fn slice_view(r: Option<&str>) -> Option<Seq<char>> {
    match r {
        Some(s) => Some(s@),
        None => None,
    }
}

/// Calls `core::str::from_utf8`.  Trusted: it succeeds on exactly the byte
/// strings that are valid UTF-8, and then gives the text that they encode.
#[verifier::external_body]
fn utf8_text(bytes: &[u8]) -> (r: Option<&str>)
    ensures
        slice_view(r) == argument_text(bytes@),
{
    core::str::from_utf8(bytes).ok()
}

/// The block of the guest's memory that holds the argument.
pub fn argument_block(handle: u32) -> (r: Result<Allocation, RibosomeErrorCode>)
    ensures
        r == handle_block(handle),
{
    match decode_status(handle) {
        Status::Stored(block) => Ok(block),
        _ => Err(RibosomeErrorCode::ArgumentDeserializationFailed),
    }
}

/// Reads the query that the bytes of an argument block state.
pub fn decode_argument(argument: &[u8]) -> (r: Result<QueryArgs, RibosomeErrorCode>)
    ensures
        match decoded(argument@) {
            Ok(args) => r is Ok && r.unwrap()@ == args,
            Err(code) => r == Err::<QueryArgs, RibosomeErrorCode>(code),
        },
{
    let text = match utf8_text(argument) {
        Some(text) => text,
        None => {
            return Err(RibosomeErrorCode::ArgumentDeserializationFailed);
        },
    };
    match QueryArgs::from_json(text) {
        Some(args) => Ok(args),
        None => Err(RibosomeErrorCode::ArgumentDeserializationFailed),
    }
}

/// Asks the query `args` of `chain`, starting at the chain's newest header.
pub fn ask(chain: &Chain, args: &QueryArgs) -> (r: Result<Vec<String>, RibosomeErrorCode>)
    ensures
        match asked(chain@, args@) {
            Ok(found) => r is Ok && strings_of(r.unwrap()@) == found,
            Err(code) => r == Err::<Vec<String>, RibosomeErrorCode>(code),
        },
{
    let patterns = args.entry_type_names.patterns();
    match chain.query(chain.top_chain_header(), &patterns, args.start, args.limit) {
        Ok(found) => Ok(found),
        Err(QueryError::MalformedPattern) => Err(RibosomeErrorCode::ArgumentDeserializationFailed),
        Err(QueryError::UnknownEntryType) => Err(RibosomeErrorCode::UnknownEntryType),
    }
}

/// Answers the query held in `argument` from `chain`, starting at the
/// chain's newest header.
pub fn run_query(chain: &Chain, argument: &[u8]) -> (r: Result<Vec<String>, RibosomeErrorCode>)
    ensures
        match answer(chain@, argument@) {
            Ok(found) => r is Ok && strings_of(r.unwrap()@) == found,
            Err(code) => r == Err::<Vec<String>, RibosomeErrorCode>(code),
        },
{
    match decode_argument(argument) {
        Ok(args) => ask(chain, &args),
        Err(code) => Err(code),
    }
}

/// The host's reply to an answer: the JSON array of the addresses as the
/// payload to store, or the failure.
pub fn reply_with(outcome: Result<Vec<String>, RibosomeErrorCode>) -> (r: BridgeReply)
    ensures
        r@ == reply_to(
            match outcome {
                Ok(found) => Ok(strings_of(found@)),
                Err(code) => Err(code),
            },
        ),
{
    match outcome {
        Err(code) => BridgeReply::Fail(code),
        Ok(found) => match write_string_list(&found) {
            Some(text) => BridgeReply::Store(text),
            // Writing strings does not fail; this arm keeps the match whole.
            None => BridgeReply::Fail(RibosomeErrorCode::ResponseSerializationFailed),
        },
    }
}

/// The host's reply to a guest's query `args`, once its argument block has
/// been read.
///
/// The agent must have committed its genesis entries before any guest runs.
pub fn answer_query(chain: &Chain, args: &QueryArgs) -> (r: BridgeReply)
    requires
        chain@.top is Some,
    ensures
        r@ == reply_to(asked(chain@, args@)),
{
    reply_with(ask(chain, args))
}

/// The host's reply to a guest's `query` call whose argument block holds the
/// bytes `argument`.  A query that succeeds always has a payload to store.
///
/// The agent must have committed its genesis entries before any guest runs.
pub fn invoke_query(chain: &Chain, argument: &[u8]) -> (r: BridgeReply)
    requires
        chain@.top is Some,
    ensures
        r@ == reply_to(answer(chain@, argument@)),
        answer(chain@, argument@) is Ok <==> r@ is Store,
{
    match decode_argument(argument) {
        Ok(args) => answer_query(chain, &args),
        Err(code) => BridgeReply::Fail(code),
    }
}

impl BridgeReply {
    /// The size of the block that the reply needs, in bytes: the payload's
    /// length exactly.  A failure needs none and keeps its status.
    pub fn block_length(&self) -> (r: Result<u16, RibosomeErrorCode>)
        ensures
            r == (match self@ {
                ReplyModel::Fail(code) => Err::<u16, RibosomeErrorCode>(code),
                ReplyModel::Store(text) => if byte_length(text) == 0 {
                    Err(RibosomeErrorCode::ZeroSizedAllocation)
                } else if byte_length(text) > 65535 {
                    Err(RibosomeErrorCode::OutOfMemory)
                } else {
                    Ok(byte_length(text) as u16)
                },
            }),
    {
        match self {
            BridgeReply::Fail(code) => Err(*code),
            BridgeReply::Store(text) => {
                let n = text.as_str().as_bytes().len();
                if n == 0 {
                    Err(RibosomeErrorCode::ZeroSizedAllocation)
                } else if n > 65535 {
                    Err(RibosomeErrorCode::OutOfMemory)
                } else {
                    Ok(n as u16)
                }
            },
        }
    }

    /// The block to write the payload into, once the allocator has offered
    /// room at `offset`, or `None` for no room.  On `Err` nothing is to be
    /// written.
    pub fn store_plan(&self, offset: Option<u16>) -> (r: Result<Allocation, RibosomeErrorCode>)
        ensures
            r == store_block(self@, offset),
    {
        let length = match self.block_length() {
            Ok(length) => length,
            Err(code) => {
                return Err(code);
            },
        };
        match offset {
            None => Err(RibosomeErrorCode::OutOfMemory),
            Some(at) => Allocation::new(at, length),
        }
    }
}

/// The status that ends the call: the handle of the block that now holds the
/// payload, or the status of the failure.
pub fn return_status(plan: &Result<Allocation, RibosomeErrorCode>) -> (r: u32)
    ensures
        r == final_status(*plan),
{
    match plan {
        Ok(block) => block.encode(),
        Err(code) => code.code(),
    }
}

} // verus!
