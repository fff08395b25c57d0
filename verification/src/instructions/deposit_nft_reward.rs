use vstd::prelude::*;

use crate::state::{Key, Raffle, RaffleReward, RaffleRewardType};

verus! {

/// The reward that a deposit records: an NFT reward named by the raffle's
/// own address, with no ticket drawn yet.
pub open spec fn deposited_reward(raffle_key: Key) -> RaffleRewardType {
    RaffleRewardType::MPLNFT(RaffleReward { reward: raffle_key, random_no: 0 })
}

/// Records the reward once the reward token has been moved to the raffle:
/// the reward becomes an NFT reward named by `raffle_key` with no ticket
/// drawn; every other field keeps its value.
pub fn handler(raffle: &mut Raffle, raffle_key: Key)
    ensures
        final(raffle).reward == deposited_reward(raffle_key),
        final(raffle).reward == RaffleRewardType::MPLNFT(
            RaffleReward { reward: raffle_key, random_no: 0 },
        ),
        final(raffle).owner == old(raffle).owner,
        final(raffle).bump == old(raffle).bump,
        final(raffle).entries == old(raffle).entries,
        final(raffle).end_date == old(raffle).end_date,
        final(raffle).max_entries == old(raffle).max_entries,
        final(raffle).sold_tickets == old(raffle).sold_tickets,
        final(raffle).collections == old(raffle).collections,
{
    raffle.reward = RaffleRewardType::MPLNFT(RaffleReward { reward: raffle_key, random_no: 0 });
}

} // verus!
