use vstd::prelude::*;

use crate::errors::ErrorCode;
use crate::instructions::create_entry::{entry_leaf, leaf_hash_of, record_entry_fits};
use crate::instructions::create_raffle::create_raffle_outcome;
use crate::instructions::declare_winner::{declare_outcome, draw_seed, le_value, winning_ticket};
use crate::instructions::deposit_nft_reward::deposited_reward;
use crate::instructions::create_entry::entry_words_before;
use crate::state::{
    holds_ticket, init_words, lemma_mark_ticket_holds, lemma_mark_tickets_holds, mark_ticket,
    mark_tickets, ticket_in_range, ticket_shift, ticket_word, BitArray, Collection, Key, Raffle, RaffleReward,
    RaffleRewardType,
};

verus! {

/// Where a ticket lives: ticket `64k + j` with `1 <= j <= 63` is bit
/// `64 - j` of word `k`, and ticket `64k` (for `k >= 1`) is bit 0 of word `k`;
/// so ticket 1 is the top bit of the first word.
pub proof fn ticket_layout(i: int)
    requires
        1 <= i,
    ensures
        ticket_word(i) == i / 64,
        i % 64 != 0 ==> ticket_shift(i) == 64 - i % 64,
        i % 64 == 0 ==> ticket_shift(i) == 0,
{
    if i % 64 == 0 {
        assert((i - 1) % 64 == 63);
    } else {
        assert((i - 1) % 64 == i % 64 - 1);
    }
}

/// A fresh bitmap has `7000 / 64 + 1 = 110` words.
pub proof fn fresh_bitmap_has_110_words()
    ensures
        init_words() == 110,
{
}

/// Recording a ticket twice is the same as recording it once.
pub proof fn mark_ticket_idempotent(words: Seq<u64>, i: int)
    requires
        ticket_in_range(words, i),
    ensures
        mark_ticket(mark_ticket(words, i), i) == mark_ticket(words, i),
{
    let once = mark_ticket(words, i);
    let w = crate::state::ticket_word(i);
    let s = crate::state::ticket_shift(i);
    let x = words[w];
    assert((x | (1u64 << s)) | (1u64 << s) == x | (1u64 << s)) by (bit_vector);
    assert(mark_ticket(once, i) =~= once);
}

/// After a ticket is recorded it is held, and a ticket that was held stays
/// held whatever else is recorded.
pub proof fn recorded_ticket_is_held(words: Seq<u64>, i: int, j: int)
    requires
        ticket_in_range(words, i),
    ensures
        holds_ticket(mark_ticket(words, i), i),
        holds_ticket(words, j) ==> holds_ticket(mark_ticket(words, i), j),
{
    lemma_mark_ticket_holds(words, i, i);
    lemma_mark_ticket_holds(words, i, j);
}

/// A draw among `sold` tickets picks one of the tickets sold: a number from
/// 1 to `sold`.
pub proof fn drawn_ticket_was_sold(seed: u64, sold: u16)
    requires
        sold > 0,
    ensures
        1 <= winning_ticket(seed, sold) <= sold,
{
}

/// Once the reward is deposited, declaring a winner succeeds exactly when
/// some ticket was sold, and then draws one of the sold tickets for the
/// deposited reward.
pub proof fn declare_after_deposit(raffle: Raffle, raffle_key: Key, slot_hashes: Seq<u8>, now: i64)
    requires
        raffle.reward == deposited_reward(raffle_key),
    ensures
        declare_outcome(raffle, slot_hashes, now) is Ok <==> raffle.sold_tickets > 0,
        declare_outcome(raffle, slot_hashes, now) matches Ok(r) ==> (r matches RaffleRewardType::MPLNFT(
            inner,
        ) && inner.reward == raffle_key && 1 <= inner.random_no <= raffle.sold_tickets),
{
}

/// A winner is declared once: a raffle whose reward already carries a
/// drawn ticket refuses a second draw with `AllWinnerDeclared`, whatever the
/// slot hashes and the time.
pub proof fn winner_declared_once(
    raffle: Raffle,
    slot_hashes: Seq<u8>,
    now: i64,
    later: Raffle,
    later_slot_hashes: Seq<u8>,
    later_now: i64,
)
    requires
        declare_outcome(raffle, slot_hashes, now) is Ok,
        later.reward == declare_outcome(raffle, slot_hashes, now)->Ok_0,
        later.sold_tickets > 0,
    ensures
        declare_outcome(later, later_slot_hashes, later_now) == Err::<RaffleRewardType, ErrorCode>(
            ErrorCode::AllWinnerDeclared,
        ),
{
}

/// Two entries recorded one after the other, each starting from an empty
/// bitmap, never hold the same ticket: the first gets the `n` tickets after
/// the `sold` ones, the second the `m` tickets after those.
pub proof fn consecutive_entries_hold_disjoint_tickets(
    first_entry: BitArray,
    second_entry: BitArray,
    sold: u16,
    n: u8,
    m: u8,
    j: int,
)
    requires
        first_entry.amount == 0,
        second_entry.amount == 0,
        1 <= n,
        1 <= m,
        ticket_word(sold + n + m) < init_words(),
    ensures
        !(holds_ticket(
            mark_tickets(entry_words_before(first_entry), sold + 1, sold + n + 1),
            j,
        ) && holds_ticket(
            mark_tickets(entry_words_before(second_entry), sold + n + 1, sold + n + m + 1),
            j,
        )),
{
    let empty = entry_words_before(first_entry);
    assert(empty == entry_words_before(second_entry));
    assert(ticket_word(sold + n) <= ticket_word(sold + n + m));
    lemma_mark_tickets_holds(empty, sold + 1, sold + n + 1, j);
    lemma_mark_tickets_holds(empty, sold + n + 1, sold + n + m + 1, j);
    if ticket_in_range(empty, j) {
        let x = empty[ticket_word(j)];
        let s = crate::state::ticket_shift(j);
        assert(x == 0u64);
        assert((0u64 >> s) & 1 == 0) by (bit_vector);
    }
}

/// Eight bytes read little-endian: `b[0] + 2^8 b[1] + ... + 2^56 b[7]`.
pub proof fn le_value_of_eight_bytes(b: Seq<u8>)
    requires
        b.len() == 8,
    ensures
        le_value(b) == b[0] + 0x100 * b[1] + 0x1_0000 * b[2] + 0x100_0000 * b[3] + 0x1_0000_0000
            * b[4] + 0x100_0000_0000 * b[5] + 0x1_0000_0000_0000 * b[6] + 0x100_0000_0000_0000
            * b[7],
{
    reveal_with_fuel(le_value, 9);
    let b1 = b.drop_first();
    let b2 = b1.drop_first();
    let b3 = b2.drop_first();
    let b4 = b3.drop_first();
    let b5 = b4.drop_first();
    let b6 = b5.drop_first();
    let b7 = b6.drop_first();
    let b8 = b7.drop_first();
    assert(b8.len() == 0);
    assert(le_value(b7) == b[7]);
    assert(le_value(b6) == b[6] + 0x100 * b[7]);
    assert(le_value(b5) == b[5] + 0x100 * b[6] + 0x1_0000 * b[7]);
    assert(le_value(b4) == b[4] + 0x100 * b[5] + 0x1_0000 * b[6] + 0x100_0000 * b[7]);
    assert(le_value(b3) == b[3] + 0x100 * b[4] + 0x1_0000 * b[5] + 0x100_0000 * b[6]
        + 0x1_0000_0000 * b[7]);
    assert(le_value(b2) == b[2] + 0x100 * b[3] + 0x1_0000 * b[4] + 0x100_0000 * b[5]
        + 0x1_0000_0000 * b[6] + 0x100_0000_0000 * b[7]);
    assert(le_value(b1) == b[1] + 0x100 * b[2] + 0x1_0000 * b[3] + 0x100_0000 * b[4]
        + 0x1_0000_0000 * b[5] + 0x100_0000_0000 * b[6] + 0x1_0000_0000_0000 * b[7]);
}

/// The hash part of a draw's seed: bytes 12 to 19 of the slot-hashes data,
/// least significant first, all eight of them.
pub open spec fn slot_hash_u64(s: Seq<u8>) -> int {
    s[12] + 0x100 * s[13] + 0x1_0000 * s[14] + 0x100_0000 * s[15] + 0x1_0000_0000 * s[16]
        + 0x100_0000_0000 * s[17] + 0x1_0000_0000_0000 * s[18] + 0x100_0000_0000_0000 * s[19]
}

/// The seed of a draw is the full 64-bit slot hash at offset 12 minus the
/// timestamp taken as a `u64`, and 0 when the timestamp is the larger.
pub proof fn draw_seed_is_hash_minus_time(s: Seq<u8>, now: i64)
    requires
        s.len() >= 20,
    ensures
        draw_seed(s, now) == (if slot_hash_u64(s) >= (now as u64) {
            slot_hash_u64(s) - (now as u64)
        } else {
            0
        }),
{
    let b = s.subrange(12, 20);
    le_value_of_eight_bytes(b);
    assert(le_value(b) == slot_hash_u64(s));
}

/// The ticket a seed draws among `sold` tickets is the seed's low 16 bits
/// modulo `sold`, plus one.
pub proof fn winning_ticket_is_low_bits_mod_sold(seed: u64, sold: u16)
    requires
        sold > 0,
    ensures
        winning_ticket(seed, sold) == (seed as int % 0x1_0000) % (sold as int) + 1,
{
    assert((seed as u16) as u64 == seed % 0x1_0000) by (bit_vector);
}

/// Declaring a winner succeeds exactly on a raffle with tickets sold and an
/// NFT reward with no ticket drawn yet; it then keeps the reward's address
/// and draws `((hash - now, saturating) mod 2^16) mod sold + 1`, where the
/// hash is the full eight bytes at offset 12 of the slot hashes.
pub proof fn declared_ticket_is_seed_mod_sold(raffle: Raffle, s: Seq<u8>, now: i64)
    requires
        s.len() >= 20,
    ensures
        declare_outcome(raffle, s, now) is Ok <==> (raffle.sold_tickets > 0 && (
        raffle.reward matches RaffleRewardType::MPLNFT(r) && r.random_no == 0)),
        declare_outcome(raffle, s, now) matches Ok(reward) ==> (raffle.reward matches RaffleRewardType::MPLNFT(
            r,
        ) && reward == RaffleRewardType::MPLNFT(
            RaffleReward {
                reward: r.reward,
                random_no: ((if slot_hash_u64(s) >= (now as u64) {
                    slot_hash_u64(s) - (now as u64)
                } else {
                    0
                }) % 0x1_0000 % (raffle.sold_tickets as int) + 1) as u16,
            },
        )),
{
    draw_seed_is_hash_minus_time(s, now);
    if raffle.sold_tickets > 0 {
        winning_ticket_is_low_bits_mod_sold(draw_seed(s, now), raffle.sold_tickets);
    }
}

/// Declaring a winner is refused with `NoTicketsSold` when no ticket was
/// sold or the reward is not an NFT reward, and with `AllWinnerDeclared`
/// when the reward already carries a drawn ticket.
pub proof fn declare_refusals(raffle: Raffle, s: Seq<u8>, now: i64)
    ensures
        raffle.sold_tickets == 0 ==> declare_outcome(raffle, s, now) == Err::<
            RaffleRewardType,
            ErrorCode,
        >(ErrorCode::NoTicketsSold),
        raffle.sold_tickets > 0 && !(raffle.reward is MPLNFT) ==> declare_outcome(raffle, s, now)
            == Err::<RaffleRewardType, ErrorCode>(ErrorCode::NoTicketsSold),
        raffle.sold_tickets > 0 && (raffle.reward matches RaffleRewardType::MPLNFT(r)
            && r.random_no != 0) ==> declare_outcome(raffle, s, now) == Err::<
            RaffleRewardType,
            ErrorCode,
        >(ErrorCode::AllWinnerDeclared),
{
}

/// Every sold ticket can win: for each ticket `t` from 1 to `sold`, some
/// slot-hashes data draws `t`.
pub proof fn every_sold_ticket_can_win(raffle: Raffle, t: u16)
    requires
        raffle.reward matches RaffleRewardType::MPLNFT(r) && r.random_no == 0,
        1 <= t <= raffle.sold_tickets,
    ensures
        exists|s: Seq<u8>|
            #[trigger] declare_outcome(raffle, s, 0) matches Ok(RaffleRewardType::MPLNFT(r))
                && r.random_no == t,
{
    let v: int = t - 1;
    let s = Seq::new(
        20,
        |k: int|
            if k == 12 {
                (v % 256) as u8
            } else if k == 13 {
                (v / 256) as u8
            } else {
                0u8
            },
    );
    assert(slot_hash_u64(s) == v);
    declared_ticket_is_seed_mod_sold(raffle, s, 0);
    assert(v % 0x1_0000 == v);
    vstd::arithmetic::div_mod::lemma_small_mod(v as nat, raffle.sold_tickets as nat);
    assert(v % (raffle.sold_tickets as int) == v);
    assert(declare_outcome(raffle, s, 0) matches Ok(RaffleRewardType::MPLNFT(r)) && r.random_no == t);
}

/// Creating a raffle is refused for more than three collections, otherwise
/// for an end date before now, and accepted in every other case.
pub proof fn create_raffle_accepts_open_raffles(
    end_date: i64,
    collections: Seq<Collection>,
    now: i64,
)
    ensures
        collections.len() > 3 ==> create_raffle_outcome(end_date, collections, now) == Err::<
            (),
            ErrorCode,
        >(ErrorCode::CannotBeMoreThanThree),
        collections.len() <= 3 && end_date < now ==> create_raffle_outcome(end_date, collections, now)
            == Err::<(), ErrorCode>(ErrorCode::WrongEndDate),
        collections.len() <= 3 && end_date >= now ==> create_raffle_outcome(
            end_date,
            collections,
            now,
        ) == Ok::<(), ErrorCode>(()),
{
}

/// An entry of `n` tickets is recorded exactly when none of the counter
/// additions overflows (the entry count below 255, the ticket numbers and
/// the entry's ticket count within `u16`) and the last new ticket has a word
/// in the bitmap (110 words for an entry without tickets).
pub proof fn entry_fits_exactly_without_overflow(raffle: Raffle, tickets: BitArray, n: u8)
    ensures
        record_entry_fits(raffle, tickets, n) <==> {
            &&& 1 <= n
            &&& raffle.entries < 255
            &&& n == 1 ==> raffle.sold_tickets < 0xffff
            &&& n > 1 ==> raffle.sold_tickets + n < 0xffff
            &&& tickets.amount + n <= 0xffff
            &&& (raffle.sold_tickets + n) / 64 < (if tickets.amount == 0 {
                110
            } else {
                tickets.tickets@.len() as int
            })
        },
{
    assert(init_words() == 110);
}

/// A first entry that buys one ticket fits whenever the raffle has fewer
/// than 255 entries and the new ticket is below 7040.
pub proof fn single_ticket_entry_fits(raffle: Raffle, tickets: BitArray)
    requires
        tickets.amount == 0,
        raffle.entries < 255,
        raffle.sold_tickets + 1 < 7040,
    ensures
        record_entry_fits(raffle, tickets, 1),
{
    entry_fits_exactly_without_overflow(raffle, tickets, 1);
}

/// The leaf an entry proves is Bubblegum's version-1 leaf with the asset id,
/// the entrant as owner and as delegate, the nonce, the data hash and the
/// creator hash, in that order.
pub proof fn entry_leaf_is_bubblegum_leaf(
    asset_id: Seq<u8>,
    authority: Seq<u8>,
    nonce: u64,
    data_hash: Seq<u8>,
    creator_hash: Seq<u8>,
)
    ensures
        entry_leaf(asset_id, authority, nonce, data_hash, creator_hash) == leaf_hash_of(
            asset_id,
            authority,
            authority,
            nonce,
            data_hash,
            creator_hash,
        ),
{
}

} // verus!
