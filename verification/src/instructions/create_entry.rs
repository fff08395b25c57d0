use vstd::prelude::*;

use crate::errors::ErrorCode;
use crate::state::{
    holds_ticket, init_words, lemma_mark_tickets_holds, mark_tickets, ticket_in_range, ticket_shift,
    ticket_word, BitArray, Key, Raffle, BITARRAY_BITS, MAX_TICKETS,
};
use anchor_lang::solana_program::pubkey::Pubkey;

verus! {

/// Tickets that one entry buys. Entries are not weighted by collection, so
/// every entry buys one ticket.
pub const ENTRY_WEIGHT: u8 = 1;

/// The address that `Pubkey::try_find_program_address` derives from the
/// seeds that `mpl_bubblegum::utils::get_asset_id` uses (`"asset"`, the tree
/// at `tree`, the little-endian bytes of `nonce`) under the Bubblegum program
/// id: the asset id of leaf `nonce`, or `None` when no bump seed gives an
/// address off the curve.
pub uninterp spec fn asset_id_of(tree: Seq<u8>, nonce: u64) -> Option<Seq<u8>>;

/// The 32-byte hash that `mpl_bubblegum::types::LeafSchema::hash` gives for
/// a version-1 leaf with these fields.
pub uninterp spec fn leaf_hash_of(
    id: Seq<u8>,
    owner: Seq<u8>,
    delegate: Seq<u8>,
    nonce: u64,
    data_hash: Seq<u8>,
    creator_hash: Seq<u8>,
) -> Seq<u8>;

/// Calls `Pubkey::try_find_program_address` with the seeds and program id
/// of `mpl_bubblegum::utils::get_asset_id`, which returns the address or
/// `None` where `get_asset_id` would panic. The contract claims only that
/// the result, `None` included, is a function of the tree and the nonce.
#[verifier::external_body]
fn asset_id(tree: Key, nonce: u64) -> (id: Option<Key>)
    ensures
        id is None <==> asset_id_of(tree@, nonce) is None,
        id matches Some(k) ==> asset_id_of(tree@, nonce) == Some(k@),
{
    Pubkey::try_find_program_address(
        &[b"asset", tree.as_ref(), &nonce.to_le_bytes()],
        &mpl_bubblegum::ID,
    ).map(|(address, _bump)| address.to_bytes())
}

/// Builds `mpl_bubblegum::types::LeafSchema::V1` from the fields and calls its
/// `hash` (keccak over the version byte and the fields). The contract claims
/// only that the result is a function of the fields.
#[verifier::external_body]
fn leaf_hash(
    id: Key,
    owner: Key,
    delegate: Key,
    nonce: u64,
    data_hash: [u8; 32],
    creator_hash: [u8; 32],
) -> (h: [u8; 32])
    ensures
        h@ == leaf_hash_of(id@, owner@, delegate@, nonce, data_hash@, creator_hash@),
{
    mpl_bubblegum::types::LeafSchema::V1 {
        id: Pubkey::new_from_array(id),
        owner: Pubkey::new_from_array(owner),
        delegate: Pubkey::new_from_array(delegate),
        nonce,
        data_hash,
        creator_hash,
    }.hash()
}

/// The leaf that proves `authority` owns the compressed NFT `asset_id` at
/// leaf `nonce`, with the given data and creator hashes: the asset is owned
/// and delegated by `authority`.
pub open spec fn entry_leaf(
    asset_id: Seq<u8>,
    authority: Seq<u8>,
    nonce: u64,
    data_hash: Seq<u8>,
    creator_hash: Seq<u8>,
) -> Seq<u8> {
    leaf_hash_of(asset_id, authority, authority, nonce, data_hash, creator_hash)
}

/// What an accepted entry goes on with: the number of tickets it buys and
/// the leaf hash that the Bubblegum program must verify against the tree.
#[derive(Debug, Clone, Copy)]
pub struct EntryPlan {
    pub weight: u8,
    pub leaf_hash: [u8; 32],
}

/// Decides whether `authority` may enter the raffle at time `now` with the
/// compressed NFT at leaf `nonce` of `merkle_tree`, and computes the leaf
/// hash that proves the ownership.
///
/// Refused with `RaffleEnded` when `now` is past the raffle's end date.
/// Otherwise the entry buys `ENTRY_WEIGHT` tickets, with the leaf of the
/// asset id of `merkle_tree` and `nonce`; `None` when that asset id cannot
/// be derived (no bump seed gives an address off the curve).
pub fn handler(
    raffle: &Raffle,
    now: i64,
    merkle_tree: Key,
    authority: Key,
    data_hash: [u8; 32],
    creator_hash: [u8; 32],
    nonce: u64,
) -> (res: Option<Result<EntryPlan, ErrorCode>>)
    ensures
        now > raffle.end_date ==> res == Some(Err::<EntryPlan, ErrorCode>(ErrorCode::RaffleEnded)),
        now <= raffle.end_date ==> (res is None <==> asset_id_of(merkle_tree@, nonce) is None),
        now <= raffle.end_date ==> (asset_id_of(merkle_tree@, nonce) matches Some(id) ==> (
        res matches Some(Ok(plan)) && plan.weight == ENTRY_WEIGHT && plan.leaf_hash@ == entry_leaf(
            id,
            authority@,
            nonce,
            data_hash@,
            creator_hash@,
        ))),
        now <= raffle.end_date ==> (asset_id_of(merkle_tree@, nonce) matches Some(id) ==> (
        res matches Some(Ok(plan)) && plan.weight == 1 && plan.leaf_hash@ == leaf_hash_of(
            id,
            authority@,
            authority@,
            nonce,
            data_hash@,
            creator_hash@,
        ))),
{
    let weight: u8 = ENTRY_WEIGHT;
    if now > raffle.end_date {
        return Some(Err(ErrorCode::RaffleEnded));
    }
    if weight == 0 {
        return Some(Err(ErrorCode::NoEligibleEntries));
    }
    let id = match asset_id(merkle_tree, nonce) {
        Some(id) => id,
        None => return None,
    };
    let leaf = leaf_hash(id, authority, authority, nonce, data_hash, creator_hash);
    Some(Ok(EntryPlan { weight, leaf_hash: leaf }))
}

/// The words that an entry's tickets are added to: a fresh bitmap when the
/// entry holds no ticket yet, its own words otherwise.
pub open spec fn entry_words_before(tickets: BitArray) -> Seq<u64> {
    if tickets.amount == 0 {
        Seq::new(init_words(), |k: int| 0u64)
    } else {
        tickets.tickets@
    }
}

/// The inputs on which recording an entry of `n` tickets completes: one
/// ticket at least, ticket numbers and counters that fit their integer types,
/// and a bitmap with a word for the last new ticket.
pub open spec fn record_entry_fits(raffle: Raffle, tickets: BitArray, n: u8) -> bool {
    &&& 1 <= n
    &&& if n == 1 {
        raffle.sold_tickets + 1 <= u16::MAX
    } else {
        raffle.sold_tickets + 1 + n <= u16::MAX
    }
    &&& raffle.entries + 1 <= u8::MAX
    &&& tickets.amount + n <= u16::MAX
    &&& ticket_word(raffle.sold_tickets + n) < entry_words_before(tickets).len()
}

/// Tells whether `record_entry` completes on these inputs.
pub fn entry_fits(raffle: &Raffle, tickets: &BitArray, no_of_tickets: u8) -> (b: bool)
    ensures
        b == record_entry_fits(*raffle, *tickets, no_of_tickets),
{
    let n: u32 = no_of_tickets as u32;
    let sold: u32 = raffle.sold_tickets as u32;
    let words: usize = if tickets.amount == 0 {
        MAX_TICKETS / BITARRAY_BITS + 1
    } else {
        tickets.tickets.len()
    };
    let counters_fit: bool = if n == 1 {
        sold + 1 <= 0xffff
    } else {
        sold + 1 + n <= 0xffff
    };
    1 <= n && counters_fit && (raffle.entries as u32) + 1 <= 0xff && (tickets.amount as u32) + n
        <= 0xffff && ((sold + n) as usize) / BITARRAY_BITS < words
}

/// Records an entry, once its leaf is verified, that buys `no_of_tickets`
/// tickets: the entry gets the next `no_of_tickets` ticket numbers after the
/// ones sold so far, and the raffle counts one more entry and the new tickets.
/// An entry that holds no ticket yet starts from a fresh bitmap.
pub fn record_entry(raffle: &mut Raffle, tickets: &mut BitArray, no_of_tickets: u8)
    requires
        record_entry_fits(*old(raffle), *old(tickets), no_of_tickets),
    ensures
        final(tickets).amount == old(tickets).amount + no_of_tickets,
        final(tickets).tickets@ == mark_tickets(
            entry_words_before(*old(tickets)),
            old(raffle).sold_tickets + 1,
            old(raffle).sold_tickets + no_of_tickets + 1,
        ),
        forall|j: int|
            holds_ticket(final(tickets).tickets@, j) == ((old(raffle).sold_tickets < j
                <= old(raffle).sold_tickets + no_of_tickets) || holds_ticket(
                entry_words_before(*old(tickets)),
                j,
            )),
        old(tickets).amount == 0 ==> final(tickets).tickets@.len() == 110,
        old(tickets).amount == 0 ==> forall|j: int|
            holds_ticket(final(tickets).tickets@, j) == (old(raffle).sold_tickets < j
                <= old(raffle).sold_tickets + no_of_tickets),
        old(tickets).amount != 0 ==> final(tickets).tickets@.len() == old(tickets).tickets@.len(),
        final(raffle).sold_tickets == old(raffle).sold_tickets + no_of_tickets,
        final(raffle).entries == old(raffle).entries + 1,
        final(raffle).owner == old(raffle).owner,
        final(raffle).bump == old(raffle).bump,
        final(raffle).end_date == old(raffle).end_date,
        final(raffle).max_entries == old(raffle).max_entries,
        final(raffle).collections == old(raffle).collections,
        final(raffle).reward == old(raffle).reward,
{
    let current_ticket_number: u16 = raffle.sold_tickets;
    let ghost base = entry_words_before(*tickets);
    if tickets.amount == 0 {
        tickets.init();
        assert(tickets.tickets@ =~= base);
    }
    if no_of_tickets == 1 {
        let first: u16 = current_ticket_number + 1;
        tickets.adquire_tickets(first, first);
    } else {
        let first: u16 = current_ticket_number + 1;
        let last: u16 = first + no_of_tickets as u16 - 1;
        tickets.adquire_tickets(first, last);
    }
    proof {
        lemma_mark_tickets_holds(
            base,
            current_ticket_number + 1,
            current_ticket_number + no_of_tickets + 1,
            0,
        );
        if old(tickets).amount == 0 {
            assert forall|j: int| !holds_ticket(base, j) by {
                if ticket_in_range(base, j) {
                    let sh = ticket_shift(j);
                    assert(base[ticket_word(j)] == 0u64);
                    assert((0u64 >> sh) & 1 == 0) by (bit_vector);
                }
            }
        }
    }
    raffle.entries = raffle.entries + 1;
    raffle.sold_tickets = raffle.sold_tickets + no_of_tickets as u16;
}

} // verus!
