//! What follows from the steps of a call.

use vstd::prelude::*;
use crate::bridge::{answer, byte_length, decoded, final_status, reply_to, store_block, ReplyModel};
use crate::memory::offer;
use crate::chain::{is_plain_name, known_type, ChainModel};
use crate::matcher::all_well_formed;
use crate::query_laws::law_unknown_type_is_refused;
use crate::status::{
    lemma_block_round_trip, lemma_failure_round_trip, status_meaning, RibosomeErrorCode, Status,
};

verus! {

/// A call ends in one of two ways.  Either there is a payload and a block of
/// exactly the payload's size, within the page and where the allocator
/// offered room, and the status reads back as that block.  Or nothing is to
/// be written, and the status reads back as the failure.
pub proof fn law_store_is_all_or_nothing(reply: ReplyModel, offset: Option<u16>)
    ensures
        match store_block(reply, offset) {
            Ok(block) => {
                &&& reply is Store
                &&& block.fits()
                &&& block.length == byte_length(reply->Store_0)
                &&& offset == Some(block.offset)
                &&& 0 < final_status(Ok(block)) <= u32::MAX
                &&& status_meaning(final_status(Ok(block)) as u32) == Status::Stored(block)
            },
            Err(code) => {
                &&& 0 < final_status(Err(code)) <= u32::MAX
                &&& status_meaning(final_status(Err(code)) as u32) == Status::Failed(code)
            },
        },
        reply matches ReplyModel::Fail(code) ==> store_block(reply, offset) == Err::<
            crate::status::Allocation,
            RibosomeErrorCode,
        >(code),
{
    match store_block(reply, offset) {
        Ok(block) => {
            lemma_block_round_trip(block);
        },
        Err(code) => {
            lemma_failure_round_trip(code);
        },
    }
}

/// A query that decodes, and names an entry type that the registry does not
/// know, is answered with the unknown-entry-type status, not with the status
/// of an argument that could not be decoded.
pub proof fn law_unknown_type_crosses_as_itself(chain: ChainModel, argument: Seq<u8>, k: int)
    requires
        chain.top is Some,
        decoded(argument) is Ok,
        ({
            let patterns = decoded(argument)->Ok_0.entry_type_names.patterns();
            &&& all_well_formed(patterns)
            &&& 0 <= k < patterns.len()
            &&& is_plain_name(patterns[k])
            &&& !known_type(chain.registry, patterns[k])
        }),
    ensures
        reply_to(answer(chain, argument)) == ReplyModel::Fail(RibosomeErrorCode::UnknownEntryType),
        RibosomeErrorCode::UnknownEntryType.status()
            != RibosomeErrorCode::ArgumentDeserializationFailed.status(),
{
    let args = decoded(argument)->Ok_0;
    law_unknown_type_is_refused(
        chain,
        chain.top,
        args.entry_type_names.patterns(),
        args.start,
        args.limit,
        k,
    );
}

/// An argument that does not decode is answered with the status of an
/// argument that could not be decoded, whatever the chain holds; and a query
/// that succeeds always has a payload to store.
pub proof fn law_reply_follows_the_answer(chain: ChainModel, argument: Seq<u8>)
    ensures
        decoded(argument) is Err ==> reply_to(answer(chain, argument)) == ReplyModel::Fail(
            RibosomeErrorCode::ArgumentDeserializationFailed,
        ),
        answer(chain, argument) is Ok <==> reply_to(answer(chain, argument)) is Store,
{
}

/// A block that the allocator offers for a payload is the block that the
/// reply stores it in: the offer never fails the call.
pub proof fn law_offered_block_is_stored(text: Seq<char>, next_free: nat)
    requires
        1 <= byte_length(text) <= 65535,
        offer(next_free, byte_length(text) as u16) is Some,
    ensures
        store_block(ReplyModel::Store(text), offer(next_free, byte_length(text) as u16)) == Ok::<
            crate::status::Allocation,
            RibosomeErrorCode,
        >(
            crate::status::Allocation {
                offset: next_free as u16,
                length: byte_length(text) as u16,
            },
        ),
{
}

} // verus!
