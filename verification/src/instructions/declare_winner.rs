use vstd::prelude::*;

use crate::errors::ErrorCode;
use crate::state::{Raffle, RaffleReward, RaffleRewardType};

verus! {

/// Offset of the most recent slot hash in the slot-hashes sysvar data.
pub const SLOT_HASH_OFFSET: usize = 12;

/// Number of bytes of the slot hash that make up the seed.
pub const SEED_BYTES: usize = 8;

/// The unsigned little-endian number written in `bytes`.
pub open spec fn le_value(bytes: Seq<u8>) -> nat
    decreases bytes.len(),
{
    if bytes.len() == 0 {
        0
    } else {
        bytes[0] as nat + 256 * le_value(bytes.drop_first())
    }
}

/// `256^n`.
pub open spec fn pow256(n: nat) -> nat
    decreases n,
{
    if n == 0 {
        1
    } else {
        256 * pow256((n - 1) as nat)
    }
}

/// A little-endian number of `n` bytes is below `256^n`.
pub proof fn lemma_le_value_bound(bytes: Seq<u8>)
    ensures
        le_value(bytes) < pow256(bytes.len()),
    decreases bytes.len(),
{
    if bytes.len() > 0 {
        lemma_le_value_bound(bytes.drop_first());
    }
}

/// The seed of a draw: the eight bytes at `SLOT_HASH_OFFSET` of the
/// slot-hashes data read as a little-endian `u64`, minus the clock's unix
/// timestamp taken as a `u64`, saturating at zero.
pub open spec fn draw_seed(slot_hashes: Seq<u8>, now: i64) -> u64 {
    let hash = le_value(slot_hashes.subrange(SLOT_HASH_OFFSET as int, (SLOT_HASH_OFFSET + SEED_BYTES) as int));
    if hash < (now as u64) {
        0
    } else {
        (hash - (now as u64)) as u64
    }
}

/// The ticket that a seed draws among `sold` tickets: the seed's low 16 bits
/// modulo `sold`, plus one.
pub open spec fn winning_ticket(seed: u64, sold: u16) -> u16 {
    (((seed as u16) % sold) + 1) as u16
}

/// What declaring a winner does, given the raffle, the slot-hashes data and
/// the clock's unix timestamp: the reward with its drawn ticket, or the error.
pub open spec fn declare_outcome(raffle: Raffle, slot_hashes: Seq<u8>, now: i64) -> Result<
    RaffleRewardType,
    ErrorCode,
> {
    if raffle.sold_tickets == 0 {
        Err(ErrorCode::NoTicketsSold)
    } else {
        match raffle.reward {
            RaffleRewardType::MPLNFT(r) => {
                if r.random_no != 0 {
                    Err(ErrorCode::AllWinnerDeclared)
                } else {
                    Ok(
                        RaffleRewardType::MPLNFT(
                            RaffleReward {
                                reward: r.reward,
                                random_no: winning_ticket(draw_seed(slot_hashes, now), raffle.sold_tickets),
                            },
                        ),
                    )
                }
            },
            _ => Err(ErrorCode::NoTicketsSold),
        }
    }
}

/// Whether declaring a winner reads the slot-hashes data at all.
pub open spec fn declare_reads_slot_hashes(raffle: Raffle) -> bool {
    raffle.sold_tickets != 0 && (raffle.reward matches RaffleRewardType::MPLNFT(r) && r.random_no == 0)
}

/// Tells whether declaring a winner of `raffle` reads the slot-hashes data,
/// which then needs `SLOT_HASH_OFFSET + SEED_BYTES` bytes at least.
pub fn reads_slot_hashes(raffle: &Raffle) -> (b: bool)
    ensures
        b == declare_reads_slot_hashes(*raffle),
{
    if raffle.sold_tickets == 0 {
        return false;
    }
    match &raffle.reward {
        RaffleRewardType::MPLNFT(r) => r.random_no == 0,
        _ => false,
    }
}

/// Reads `bytes[start..start + 8]` as a little-endian `u64`.
pub fn read_le_u64(bytes: &[u8], start: usize) -> (v: u64)
    requires
        start + 8 <= bytes@.len(),
    ensures
        v == le_value(bytes@.subrange(start as int, start + 8)),
{
    let len: usize = bytes.len();
    assert(start + 8 <= len);
    let end: usize = start + 8;
    let mut acc: u64 = 0;
    let mut k: usize = end;
    proof {
        assert(bytes@.subrange(end as int, end as int) =~= Seq::<u8>::empty());
    }
    while k > start
        invariant
            start <= k <= end,
            end == start + 8,
            end <= bytes@.len(),
            acc == le_value(bytes@.subrange(k as int, end as int)),
        decreases k - start,
    {
        let ghost tail = bytes@.subrange(k as int, end as int);
        let ghost next = bytes@.subrange(k - 1, end as int);
        proof {
            assert(next.drop_first() =~= tail);
            lemma_le_value_bound(tail);
            reveal_with_fuel(pow256, 8);
            assert(pow256(7) == 0x100000000000000);
            assert(tail.len() <= 7);
            lemma_pow256_monotone(tail.len(), 7);
        }
        acc = acc * 256 + bytes[k - 1] as u64;
        k = k - 1;
    }
    acc
}

/// `256^m <= 256^n` for `m <= n`.
proof fn lemma_pow256_monotone(m: nat, n: nat)
    requires
        m <= n,
    ensures
        pow256(m) <= pow256(n),
    decreases n - m,
{
    if m < n {
        lemma_pow256_monotone(m, (n - 1) as nat);
    }
}

/// Draws the winning ticket among `sold` tickets from the slot-hashes data
/// and the clock's unix timestamp `now`.
pub fn draw_ticket(slot_hashes: &[u8], now: i64, sold: u16) -> (t: u16)
    requires
        sold > 0,
        SLOT_HASH_OFFSET + SEED_BYTES <= slot_hashes@.len(),
    ensures
        t == winning_ticket(draw_seed(slot_hashes@, now), sold),
        1 <= t <= sold,
{
    let hash: u64 = read_le_u64(slot_hashes, SLOT_HASH_OFFSET);
    let seed: u64 = hash.saturating_sub(now as u64);
    (seed as u16) % sold + 1
}

/// Draws the winner of a raffle whose reward is in place, writing the drawn
/// ticket into the reward.
///
/// Refused with `NoTicketsSold` when no ticket was sold or the reward is not
/// an NFT reward, and with `AllWinnerDeclared` when a ticket was drawn before;
/// a refused call leaves the raffle untouched. Otherwise the reward keeps its
/// address and gets the ticket of `draw_ticket`; no other field changes.
pub fn handler(raffle: &mut Raffle, slot_hashes: &[u8], now: i64) -> (res: Result<(), ErrorCode>)
    requires
        declare_reads_slot_hashes(*old(raffle)) ==> SLOT_HASH_OFFSET + SEED_BYTES
            <= slot_hashes@.len(),
    ensures
        match declare_outcome(*old(raffle), slot_hashes@, now) {
            Ok(reward) => {
                &&& res is Ok
                &&& final(raffle).reward == reward
                &&& final(raffle).owner == old(raffle).owner
                &&& final(raffle).bump == old(raffle).bump
                &&& final(raffle).entries == old(raffle).entries
                &&& final(raffle).end_date == old(raffle).end_date
                &&& final(raffle).max_entries == old(raffle).max_entries
                &&& final(raffle).sold_tickets == old(raffle).sold_tickets
                &&& final(raffle).collections == old(raffle).collections
            },
            Err(e) => res == Err::<(), ErrorCode>(e) && *final(raffle) == *old(raffle),
        },
{
    if raffle.sold_tickets == 0 {
        return Err(ErrorCode::NoTicketsSold);
    }
    let reward_key = match &raffle.reward {
        RaffleRewardType::MPLNFT(r) => {
            if r.random_no != 0 {
                return Err(ErrorCode::AllWinnerDeclared);
            }
            r.reward
        },
        _ => return Err(ErrorCode::NoTicketsSold),
    };
    let result: u16 = draw_ticket(slot_hashes, now, raffle.sold_tickets);
    raffle.reward = RaffleRewardType::MPLNFT(RaffleReward { reward: reward_key, random_no: result });
    Ok(())
}

} // verus!
