use drip_raffle::instructions::create_entry::{self, EntryPlan, ENTRY_WEIGHT};
use drip_raffle::instructions::{create_raffle, declare_winner, deposit_nft_reward};
use drip_raffle::state::{
    BitArray, Collection, Raffle, RaffleReward, RaffleRewardType, BITARRAY_BITS, MAX_COLLECTIONS,
    MAX_TICKETS,
};
use drip_raffle::ErrorCode;

use anchor_lang::solana_program::pubkey::Pubkey;

fn fresh_bitmap() -> BitArray {
    let mut b = BitArray::default();
    b.init();
    b
}

fn raffle_with(sold: u16, reward: RaffleRewardType) -> Raffle {
    let mut r = Raffle::default();
    r.sold_tickets = sold;
    r.reward = reward;
    r
}

fn key(b: u8) -> [u8; 32] {
    [b; 32]
}

#[test]
fn init_allocates_empty_words() {
    let b = fresh_bitmap();
    assert_eq!(b.amount, 0);
    assert_eq!(b.tickets.len(), MAX_TICKETS / BITARRAY_BITS + 1);
    assert_eq!(b.tickets.len(), 110);
    assert!(b.tickets.iter().all(|w| *w == 0));
    for i in 1..(110 * 64) {
        assert_eq!(b.check_ticket(i), 0);
    }
}

#[test]
fn init_resets_a_used_bitmap() {
    let mut b = BitArray { tickets: vec![u64::MAX; 3], amount: 9 };
    b.init();
    assert_eq!(b.amount, 0);
    assert_eq!(b.tickets, vec![0u64; 110]);
}

#[test]
fn ticket_bit_positions() {
    let mut b = fresh_bitmap();
    b.set_ticket(1);
    assert_eq!(b.tickets[0], 1u64 << 63);
    b.set_ticket(63);
    assert_eq!(b.tickets[0], (1u64 << 63) | 2);
    b.set_ticket(64);
    assert_eq!(b.tickets[1], 1);
    b.set_ticket(65);
    assert_eq!(b.tickets[1], 1 | (1u64 << 63));
    b.set_ticket(128);
    assert_eq!(b.tickets[2], 1);
    assert_eq!(b.amount, 0);
}

#[test]
fn set_then_check() {
    let mut b = fresh_bitmap();
    for i in [1usize, 2, 63, 64, 65, 127, 128, 129, 7000, 7039] {
        assert_eq!(b.check_ticket(i), 0);
        b.set_ticket(i);
        assert_eq!(b.check_ticket(i), 1);
    }
    assert_eq!(b.check_ticket(3), 0);
    assert_eq!(b.check_ticket(66), 0);
    assert_eq!(b.check_ticket(7038), 0);
}

#[test]
fn set_ticket_leaves_other_tickets() {
    let mut b = fresh_bitmap();
    b.set_ticket(64);
    for i in 1..(3 * 64) {
        let expected = if i == 64 { 1 } else { 0 };
        assert_eq!(b.check_ticket(i), expected);
    }
}

#[test]
fn set_ticket_is_idempotent() {
    let mut b = fresh_bitmap();
    b.set_ticket(70);
    let once = b.clone();
    b.set_ticket(70);
    assert_eq!(b, once);
}

#[test]
fn adquire_tickets_marks_range_and_counts() {
    let mut b = fresh_bitmap();
    b.adquire_tickets(1, 3);
    assert_eq!(b.amount, 3);
    assert_eq!(b.tickets[0], 0xE000_0000_0000_0000);
    b.adquire_tickets(62, 66);
    assert_eq!(b.amount, 8);
    for i in 1..200 {
        let held = (1..=3).contains(&i) || (62..=66).contains(&i);
        assert_eq!(b.check_ticket(i), if held { 1 } else { 0 });
    }
}

#[test]
fn adquire_single_ticket() {
    let mut b = fresh_bitmap();
    b.adquire_tickets(5, 5);
    assert_eq!(b.amount, 1);
    assert_eq!(b.check_ticket(5), 1);
    assert_eq!(b.check_ticket(4), 0);
}

#[test]
fn defaults() {
    let r = Raffle::default();
    assert_eq!(r.owner, [0u8; 32]);
    assert_eq!(r.sold_tickets, 0);
    assert!(r.collections.is_empty());
    assert_eq!(
        r.reward,
        RaffleRewardType::MPLNFT(RaffleReward { reward: [0u8; 32], random_no: 0 })
    );
    assert_eq!(RaffleRewardType::default(), r.reward);
    assert_eq!(Collection::default(), Collection { mint_address: [0; 32], weight: 0 });
    let b = BitArray::default();
    assert!(b.tickets.is_empty());
    assert_eq!(b.amount, 0);
}

#[test]
fn create_raffle_rejects_too_many_collections() {
    let mut r = Raffle::default();
    let cols = vec![Collection { mint_address: key(1), weight: 1 }; MAX_COLLECTIONS + 1];
    let res = create_raffle::handler(&mut r, key(9), 254, 1_000, cols, 10);
    assert_eq!(res, Err(ErrorCode::CannotBeMoreThanThree));
    assert_eq!(r.owner, [0u8; 32]);
    assert_eq!(r.end_date, 0);
}

#[test]
fn create_raffle_rejects_past_end_date() {
    let mut r = Raffle::default();
    let res = create_raffle::handler(&mut r, key(9), 254, 5, vec![], 10);
    assert_eq!(res, Err(ErrorCode::WrongEndDate));
    assert_eq!(r.end_date, 0);
}

#[test]
fn create_raffle_checks_collections_first() {
    let mut r = Raffle::default();
    let cols = vec![Collection::default(); 4];
    assert_eq!(
        create_raffle::handler(&mut r, key(9), 1, 5, cols, 10),
        Err(ErrorCode::CannotBeMoreThanThree)
    );
}

#[test]
fn create_raffle_sets_fields() {
    let mut r = Raffle::default();
    r.sold_tickets = 42;
    r.entries = 7;
    let cols = vec![
        Collection { mint_address: key(1), weight: 1 },
        Collection { mint_address: key(2), weight: 3 },
        Collection { mint_address: key(3), weight: 2 },
    ];
    let res = create_raffle::handler(&mut r, key(9), 254, 10, cols.clone(), 10);
    assert_eq!(res, Ok(()));
    assert_eq!(r.owner, key(9));
    assert_eq!(r.bump, 254);
    assert_eq!(r.end_date, 10);
    assert_eq!(r.collections, cols);
    assert_eq!(r.sold_tickets, 0);
    assert_eq!(r.entries, 7);
    assert_eq!(r.max_entries, 0);
}

#[test]
fn deposit_records_reward() {
    let mut r = raffle_with(3, RaffleRewardType::CNFT(RaffleReward { reward: key(4), random_no: 9 }));
    deposit_nft_reward::handler(&mut r, key(7));
    assert_eq!(r.reward, RaffleRewardType::MPLNFT(RaffleReward { reward: key(7), random_no: 0 }));
    assert_eq!(r.sold_tickets, 3);
}

fn slot_hashes_with(seed: u64) -> Vec<u8> {
    let mut data = vec![0xAAu8; 40];
    data[12..20].copy_from_slice(&seed.to_le_bytes());
    data
}

#[test]
fn read_le_u64_reads_little_endian() {
    let data = [0u8, 1, 2, 3, 4, 5, 6, 7, 8, 9];
    assert_eq!(declare_winner::read_le_u64(&data, 1), 0x0807_0605_0403_0201);
    assert_eq!(declare_winner::read_le_u64(&data, 0), 0x0706_0504_0302_0100);
    let data = slot_hashes_with(u64::MAX);
    assert_eq!(declare_winner::read_le_u64(&data, 12), u64::MAX);
}

#[test]
fn draw_ticket_values() {
    // seed 1, five tickets: 1 % 5 + 1
    assert_eq!(declare_winner::draw_ticket(&slot_hashes_with(1), 0, 5), 2);
    // seed 100 - 30 = 70, 70 % 9 + 1
    assert_eq!(declare_winner::draw_ticket(&slot_hashes_with(100), 30, 9), 8);
    // the timestamp exceeds the hash: the seed saturates at 0
    assert_eq!(declare_winner::draw_ticket(&slot_hashes_with(100), 1_000, 9), 1);
    // a negative timestamp taken as u64 is huge: the seed saturates at 0
    assert_eq!(declare_winner::draw_ticket(&slot_hashes_with(100), -1, 9), 1);
    // only the low 16 bits of the seed count: 0x1_0005 -> 5, 5 % 7 + 1
    assert_eq!(declare_winner::draw_ticket(&slot_hashes_with(0x1_0005), 0, 7), 6);
    // a single ticket always wins
    assert_eq!(declare_winner::draw_ticket(&slot_hashes_with(987_654_321), 12, 1), 1);
    assert_eq!(declare_winner::draw_ticket(&slot_hashes_with(65_535), 0, 65_535), 1);
}

#[test]
fn declare_without_tickets() {
    let mut r = raffle_with(0, RaffleRewardType::default());
    assert_eq!(declare_winner::handler(&mut r, &[], 0), Err(ErrorCode::NoTicketsSold));
}

#[test]
fn declare_with_other_reward_kind() {
    let mut r = raffle_with(4, RaffleRewardType::SPLTOKEN(RaffleReward { reward: key(1), random_no: 0 }));
    assert_eq!(declare_winner::handler(&mut r, &[], 0), Err(ErrorCode::NoTicketsSold));
    assert_eq!(r.reward, RaffleRewardType::SPLTOKEN(RaffleReward { reward: key(1), random_no: 0 }));
}

#[test]
fn declare_twice_is_refused() {
    let mut r = raffle_with(4, RaffleRewardType::MPLNFT(RaffleReward { reward: key(1), random_no: 0 }));
    let data = slot_hashes_with(10);
    assert_eq!(declare_winner::handler(&mut r, &data, 0), Ok(()));
    // 10 % 4 + 1
    assert_eq!(r.reward, RaffleRewardType::MPLNFT(RaffleReward { reward: key(1), random_no: 3 }));
    assert_eq!(declare_winner::handler(&mut r, &data, 0), Err(ErrorCode::AllWinnerDeclared));
    assert_eq!(r.reward, RaffleRewardType::MPLNFT(RaffleReward { reward: key(1), random_no: 3 }));
}

#[test]
fn deposit_then_declare() {
    let mut r = raffle_with(6, RaffleRewardType::default());
    deposit_nft_reward::handler(&mut r, key(5));
    let data = slot_hashes_with(1_000_017);
    assert_eq!(declare_winner::handler(&mut r, &data, 17), Ok(()));
    // seed 1_000_000, low 16 bits 16_960, 16_960 % 6 + 1
    assert_eq!(r.reward, RaffleRewardType::MPLNFT(RaffleReward { reward: key(5), random_no: 5 }));
    assert_eq!(r.sold_tickets, 6);
}

#[test]
fn create_entry_after_end_is_refused() {
    let mut r = Raffle::default();
    r.end_date = 100;
    let res = create_entry::handler(&r, 101, key(1), key(2), key(3), key(4), 7);
    assert_eq!(res.unwrap().unwrap_err(), ErrorCode::RaffleEnded);
}

#[test]
fn create_entry_computes_bubblegum_leaf() {
    let mut r = Raffle::default();
    r.end_date = 100;
    let tree = key(1);
    let authority = key(2);
    let plan: EntryPlan =
        create_entry::handler(&r, 100, tree, authority, key(3), key(4), 7).unwrap().unwrap();
    assert_eq!(plan.weight, ENTRY_WEIGHT);
    assert_eq!(plan.weight, 1);
    let id = mpl_bubblegum::utils::get_asset_id(&Pubkey::new_from_array(tree), 7);
    let leaf = mpl_bubblegum::types::LeafSchema::V1 {
        id,
        owner: Pubkey::new_from_array(authority),
        delegate: Pubkey::new_from_array(authority),
        nonce: 7,
        data_hash: key(3),
        creator_hash: key(4),
    };
    assert_eq!(plan.leaf_hash, leaf.hash());
    assert_ne!(plan.leaf_hash, tree);
    assert_ne!(id.to_bytes(), tree);
    let (derived, _bump) = Pubkey::try_find_program_address(
        &[b"asset", tree.as_ref(), &7u64.to_le_bytes()],
        &mpl_bubblegum::ID,
    )
    .unwrap();
    assert_eq!(derived, id);
    // another nonce names another asset, hence another leaf
    let other = create_entry::handler(&r, 0, tree, authority, key(3), key(4), 8).unwrap().unwrap();
    assert_ne!(other.leaf_hash, plan.leaf_hash);
}

#[test]
fn record_first_entry() {
    let mut r = Raffle::default();
    let mut t = BitArray::default();
    create_entry::record_entry(&mut r, &mut t, 1);
    assert_eq!(r.sold_tickets, 1);
    assert_eq!(r.entries, 1);
    assert_eq!(t.amount, 1);
    assert_eq!(t.tickets.len(), 110);
    assert_eq!(t.check_ticket(1), 1);
    assert_eq!(t.check_ticket(2), 0);
}

#[test]
fn record_entries_get_consecutive_tickets() {
    let mut r = Raffle::default();
    r.sold_tickets = 10;
    let mut a = BitArray::default();
    create_entry::record_entry(&mut r, &mut a, 3);
    let mut b = BitArray::default();
    create_entry::record_entry(&mut r, &mut b, 1);
    assert_eq!(r.sold_tickets, 14);
    assert_eq!(r.entries, 2);
    assert_eq!(a.amount, 3);
    assert_eq!(b.amount, 1);
    for i in 1..40 {
        assert_eq!(a.check_ticket(i), if (11..=13).contains(&i) { 1 } else { 0 });
        assert_eq!(b.check_ticket(i), if i == 14 { 1 } else { 0 });
    }
}

#[test]
fn record_entry_keeps_held_tickets() {
    let mut r = Raffle::default();
    r.sold_tickets = 64;
    let mut t = fresh_bitmap();
    t.adquire_tickets(2, 2);
    create_entry::record_entry(&mut r, &mut t, 1);
    assert_eq!(t.amount, 2);
    assert_eq!(t.check_ticket(2), 1);
    assert_eq!(t.check_ticket(65), 1);
    assert_eq!(r.sold_tickets, 65);
}

#[test]
fn entry_fits_matches_panicking_inputs() {
    let mut r = Raffle::default();
    let fresh = BitArray::default();
    assert!(create_entry::entry_fits(&r, &fresh, 1));
    assert!(!create_entry::entry_fits(&r, &fresh, 0));
    // the last ticket must have a word in a fresh bitmap of 110 words
    r.sold_tickets = 110 * 64 - 2;
    assert!(create_entry::entry_fits(&r, &fresh, 1));
    assert!(!create_entry::entry_fits(&r, &fresh, 2));
    // the ticket counter must not overflow
    r.sold_tickets = u16::MAX;
    let big = BitArray { tickets: vec![0; 1100], amount: 1 };
    assert!(!create_entry::entry_fits(&r, &big, 1));
    r.sold_tickets = u16::MAX - 1;
    assert!(create_entry::entry_fits(&r, &big, 1));
    r.sold_tickets = u16::MAX - 2;
    assert!(!create_entry::entry_fits(&r, &big, 2));
    r.sold_tickets = u16::MAX - 3;
    assert!(create_entry::entry_fits(&r, &big, 2));
    // the entry counter must not overflow
    r.sold_tickets = 0;
    r.entries = u8::MAX;
    assert!(!create_entry::entry_fits(&r, &fresh, 1));
    // the entry's own ticket count must not overflow
    r.entries = 0;
    let full = BitArray { tickets: vec![0; 110], amount: u16::MAX };
    assert!(!create_entry::entry_fits(&r, &full, 1));
    // an entry that already holds tickets keeps its own words
    let short = BitArray { tickets: vec![0; 1], amount: 1 };
    r.sold_tickets = 62;
    assert!(create_entry::entry_fits(&r, &short, 1));
    assert!(!create_entry::entry_fits(&r, &short, 2));
}

#[test]
fn reads_slot_hashes_only_when_drawing() {
    let pending = RaffleRewardType::MPLNFT(RaffleReward { reward: key(1), random_no: 0 });
    assert!(declare_winner::reads_slot_hashes(&raffle_with(1, pending)));
    assert!(!declare_winner::reads_slot_hashes(&raffle_with(0, pending)));
    let drawn = RaffleRewardType::MPLNFT(RaffleReward { reward: key(1), random_no: 2 });
    assert!(!declare_winner::reads_slot_hashes(&raffle_with(3, drawn)));
    let other = RaffleRewardType::CoreAsset(RaffleReward { reward: key(1), random_no: 0 });
    assert!(!declare_winner::reads_slot_hashes(&raffle_with(3, other)));
}
