pub mod create_entry;
pub mod create_raffle;
pub mod declare_winner;
pub mod deposit_nft_reward;
