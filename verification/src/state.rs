use vstd::prelude::*;

verus! {

/// Number of tickets packed into one word of a `BitArray`.
pub const BITARRAY_BITS: usize = 64;

/// Highest ticket number a raffle is sized for.
pub const MAX_TICKETS: usize = 7000;

/// Most collections a raffle may accept entries from.
pub const MAX_COLLECTIONS: usize = 3;

/// Number of words that `BitArray::init` allocates: `MAX_TICKETS / BITARRAY_BITS + 1`.
pub open spec fn init_words() -> nat {
    (MAX_TICKETS / BITARRAY_BITS + 1) as nat
}

/// Word of the bitmap that holds ticket `i`.
pub open spec fn ticket_word(i: int) -> int {
    i / (BITARRAY_BITS as int)
}

/// Bit position (counted from the least significant bit) of ticket `i`
/// inside its word; defined for `i >= 1`.
pub open spec fn ticket_shift(i: int) -> u64 {
    (63 - (i - 1) % 64) as u64
}

/// The bit (0 or 1) that records ticket `i` in `words`.
pub open spec fn ticket_bit(words: Seq<u64>, i: int) -> u64 {
    (words[ticket_word(i)] >> ticket_shift(i)) & 1
}

/// Ticket `i` can be recorded in `words`: it is positive and its word exists.
pub open spec fn ticket_in_range(words: Seq<u64>, i: int) -> bool {
    1 <= i && ticket_word(i) < words.len()
}

/// Ticket `i` is recorded in `words`.
pub open spec fn holds_ticket(words: Seq<u64>, i: int) -> bool {
    ticket_in_range(words, i) && ticket_bit(words, i) == 1
}

/// `words` with the bit of ticket `i` raised.
pub open spec fn mark_ticket(words: Seq<u64>, i: int) -> Seq<u64> {
    words.update(ticket_word(i), words[ticket_word(i)] | (1u64 << ticket_shift(i)))
}

/// `words` with the bits of the tickets `first..end` raised, in increasing order.
pub open spec fn mark_tickets(words: Seq<u64>, first: int, end: int) -> Seq<u64>
    decreases end - first,
{
    if end <= first {
        words
    } else {
        mark_ticket(mark_tickets(words, first, end - 1), end - 1)
    }
}

/// `x / 2^s` is `x >> s` for a shift inside the word.
proof fn lemma_div_by_power_is_shift(x: u64, s: u64)
    requires
        s < 64,
    ensures
        (1u64 << s) > 0,
        x / (1u64 << s) == x >> s,
{
    vstd::bits::lemma_u64_pow2_no_overflow(s as nat);
    vstd::arithmetic::power2::lemma_pow2_pos(s as nat);
    vstd::bits::lemma_u64_shl_is_mul(1u64, s);
    vstd::bits::lemma_u64_shr_is_div(x, s);
}

/// The low six bits of `n` are `n % 64`.
proof fn lemma_low_bits_are_mod(n: usize)
    by (bit_vector)
    ensures
        n & 63usize == n % 64,
{
}

/// Raising bit `s` of `x` changes bit `s` alone.
proof fn lemma_or_bit(x: u64, s: u64, t: u64)
    by (bit_vector)
    requires
        s < 64,
        t < 64,
    ensures
        ((x | (1u64 << s)) >> t) & 1 == (if t == s { 1u64 } else { (x >> t) & 1 }),
{
}

/// Adding `2^s` to a word whose bit `s` is clear raises that bit, without overflow.
proof fn lemma_add_clear_bit(x: u64, s: u64)
    by (bit_vector)
    requires
        s < 64,
        (x >> s) & 1 == 0,
    ensures
        x + (1u64 << s) <= u64::MAX,
        x + (1u64 << s) == x | (1u64 << s),
{
}

/// Raising a bit that is already set leaves the word as it is.
proof fn lemma_or_set_bit(x: u64, s: u64)
    by (bit_vector)
    requires
        s < 64,
        (x >> s) & 1 == 1,
    ensures
        x | (1u64 << s) == x,
{
}

/// A bit of a word is 0 or 1.
proof fn lemma_bit_is_0_or_1(x: u64, s: u64)
    by (bit_vector)
    ensures
        (x >> s) & 1 <= 1,
{
}

/// Two distinct positive tickets of one word are recorded at distinct bits.
pub proof fn lemma_ticket_slots_distinct(i: int, j: int)
    requires
        1 <= i,
        1 <= j,
        i != j,
        ticket_word(i) == ticket_word(j),
    ensures
        ticket_shift(i) != ticket_shift(j),
{
    assert(i == 64 * (i / 64) + i % 64);
    assert(j == 64 * (j / 64) + j % 64);
    assert(i % 64 != j % 64);
    if i % 64 == 0 {
        assert((i - 1) % 64 == 63);
    } else {
        assert((i - 1) % 64 == i % 64 - 1);
    }
    if j % 64 == 0 {
        assert((j - 1) % 64 == 63);
    } else {
        assert((j - 1) % 64 == j % 64 - 1);
    }
}

/// Marking ticket `i` records `i` and leaves every other ticket as it was.
pub proof fn lemma_mark_ticket_holds(words: Seq<u64>, i: int, j: int)
    requires
        ticket_in_range(words, i),
    ensures
        mark_ticket(words, i).len() == words.len(),
        holds_ticket(mark_ticket(words, i), j) == (j == i || holds_ticket(words, j)),
{
    let m = mark_ticket(words, i);
    if ticket_in_range(words, j) {
        if ticket_word(j) == ticket_word(i) {
            let x = words[ticket_word(i)];
            if j != i {
                lemma_ticket_slots_distinct(i, j);
            }
            lemma_or_bit(x, ticket_shift(i), ticket_shift(j));
        }
    }
}

/// Marking the tickets `first..end` records exactly those tickets on top of
/// the ones already held.
pub proof fn lemma_mark_tickets_holds(words: Seq<u64>, first: int, end: int, j: int)
    requires
        1 <= first,
        first < end ==> ticket_word(end - 1) < words.len(),
    ensures
        mark_tickets(words, first, end).len() == words.len(),
        holds_ticket(mark_tickets(words, first, end), j) == ((first <= j < end) || holds_ticket(words, j)),
    decreases end - first,
{
    if end > first {
        if first < end - 1 {
            assert(ticket_word(end - 2) <= ticket_word(end - 1));
        }
        lemma_mark_tickets_holds(words, first, end - 1, j);
        let prev = mark_tickets(words, first, end - 1);
        assert(ticket_in_range(prev, end - 1));
        lemma_mark_ticket_holds(prev, end - 1, j);
    }
}

/// A 32-byte account address, held as its plain bytes.
pub type Key = [u8; 32];

/// The all-zero address, which `Default` gives to key fields.
pub open spec fn zero_key() -> Seq<u8> {
    Seq::new(32, |k: int| 0u8)
}

/// Makes the all-zero address.
pub fn new_zero_key() -> (k: Key)
    ensures
        k@ == zero_key(),
{
    let k: Key = [0u8; 32];
    assert(k@ =~= zero_key());
    k
}

/// Kinds of asset a raffle can hand out.
#[derive(PartialEq, Eq, Structural, Debug, Clone, Copy, Hash, PartialOrd)]
pub enum RewardType {
    MPLNFT,
    SPLTOKEN,
    SPLTOKEN22,
    CNFT,
    CoreAsset,
}

/// A collection whose assets may enter the raffle, with its weight.
#[derive(Debug, Clone, Copy, PartialEq, Eq)]
pub struct Collection {
    pub mint_address: Key,
    pub weight: u8,
}

impl Default for Collection {
    fn default() -> (c: Self)
        ensures
            c.mint_address@ == zero_key(),
            c.weight == 0,
    {
        Collection { mint_address: new_zero_key(), weight: 0 }
    }
}

/// The reward of a raffle and the ticket drawn for it (0 until drawn).
#[derive(Debug, Clone, Copy, PartialEq, Eq)]
pub struct RaffleReward {
    pub reward: Key,
    pub random_no: u16,
}

impl Default for RaffleReward {
    fn default() -> (r: Self)
        ensures
            r.reward@ == zero_key(),
            r.random_no == 0,
    {
        RaffleReward { reward: new_zero_key(), random_no: 0 }
    }
}

/// The reward of a raffle, tagged with the kind of asset it is.
#[derive(Debug, Clone, Copy, PartialEq, Eq)]
pub enum RaffleRewardType {
    MPLNFT(RaffleReward),
    SPLTOKEN(RaffleReward),
    SPLTOKEN22(RaffleReward),
    CNFT(RaffleReward),
    CoreAsset(RaffleReward),
}

impl Default for RaffleRewardType {
    fn default() -> (r: Self)
        ensures
            r matches RaffleRewardType::MPLNFT(inner) && inner.reward@ == zero_key()
                && inner.random_no == 0,
    {
        RaffleRewardType::MPLNFT(RaffleReward::default())
    }
}

/// The state of one raffle.
#[derive(Debug, Clone)]
pub struct Raffle {
    pub owner: Key,
    pub bump: u8,
    pub entries: u8,
    pub end_date: i64,
    pub max_entries: u8,
    pub sold_tickets: u16,
    pub collections: Vec<Collection>,
    pub reward: RaffleRewardType,
}

impl Default for Raffle {
    fn default() -> (r: Self)
        ensures
            r.owner@ == zero_key(),
            r.bump == 0,
            r.entries == 0,
            r.end_date == 0,
            r.max_entries == 0,
            r.sold_tickets == 0,
            r.collections@.len() == 0,
            r.reward matches RaffleRewardType::MPLNFT(inner) && inner.reward@ == zero_key()
                && inner.random_no == 0,
    {
        Raffle {
            owner: new_zero_key(),
            bump: 0,
            entries: 0,
            end_date: 0,
            max_entries: 0,
            sold_tickets: 0,
            collections: Vec::new(),
            reward: RaffleRewardType::default(),
        }
    }
}

impl Raffle {
    /// Seed prefix of a raffle's address.
    pub const PREFIX: &'static str = "raffle";
}

/// The tickets that one participant holds in one raffle.
#[derive(Debug, Clone)]
pub struct Entry {
    pub owner: Key,
    pub tickets: BitArray,
}

impl Entry {
    /// Space reserved for an entry account, in bytes.
    pub const LEN: usize = 1024;

    /// Seed prefix of an entry's address.
    pub const PREFIX: &'static str = "entry";
}

/// The tickets that one entry holds, one bit per ticket.
#[derive(Debug, Clone, PartialEq, Eq)]
pub struct BitArray {
    pub tickets: Vec<u64>,
    pub amount: u16,
}

impl Default for BitArray {
    fn default() -> (b: Self)
        ensures
            b.tickets@.len() == 0,
            b.amount == 0,
    {
        BitArray { tickets: Vec::new(), amount: 0 }
    }
}

impl BitArray {

    /// Returns 1 when ticket `i` is held, 0 otherwise.
    pub fn check_ticket(&self, i: usize) -> (r: u64)
        requires
            ticket_in_range(self.tickets@, i as int),
        ensures
            r == ticket_bit(self.tickets@, i as int),
            r <= 1,
            (r == 1) == holds_ticket(self.tickets@, i as int),
    {
        proof {
            lemma_low_bits_are_mod((i - 1) as usize);
        }
        let r: usize = ((i - 1) & (BITARRAY_BITS - 1)) + 1;
        let shift: u64 = (BITARRAY_BITS - r) as u64;
        let word: u64 = self.tickets[i / BITARRAY_BITS];
        proof {
            assert(shift == ticket_shift(i as int));
            lemma_div_by_power_is_shift(word, shift);
            lemma_bit_is_0_or_1(word, shift);
        }
        (word / (1u64 << shift)) & 1
    }

    /// Records ticket `i`; every other ticket and `amount` stay as they were.
    pub fn set_ticket(&mut self, i: usize)
        requires
            ticket_in_range(old(self).tickets@, i as int),
        ensures
            final(self).tickets@ == mark_ticket(old(self).tickets@, i as int),
            final(self).amount == old(self).amount,
    {
        proof {
            lemma_low_bits_are_mod((i - 1) as usize);
        }
        let r: usize = ((i - 1) & (BITARRAY_BITS - 1)) + 1;
        let shift: u64 = (BITARRAY_BITS - r) as u64;
        let w: usize = i / BITARRAY_BITS;
        let word: u64 = self.tickets[w];
        proof {
            assert(shift == ticket_shift(i as int));
            lemma_div_by_power_is_shift(word, shift);
        }
        if (word / (1u64 << shift)) & 1 == 0 {
            proof {
                lemma_add_clear_bit(word, shift);
            }
            self.tickets.set(w, word + (1u64 << shift));
        } else {
            proof {
                lemma_bit_is_0_or_1(word, shift);
                lemma_or_set_bit(word, shift);
            }
            assert(self.tickets@ =~= mark_ticket(old(self).tickets@, i as int));
        }
    }

    /// Adds the tickets `first..=last` to the entry and counts them in `amount`.
    pub fn adquire_tickets(&mut self, first: u16, last: u16)
        requires
            1 <= first <= last,
            ticket_word(last as int) < old(self).tickets@.len(),
            old(self).amount + (last - first) + 1 <= u16::MAX,
        ensures
            final(self).amount == old(self).amount + (last - first) + 1,
            final(self).tickets@ == mark_tickets(old(self).tickets@, first as int, last + 1),
            forall|j: int|
                holds_ticket(final(self).tickets@, j) == ((first <= j <= last) || holds_ticket(
                    old(self).tickets@,
                    j,
                )),
    {
        self.amount = self.amount + (last - first) + 1;
        let ghost start = self.tickets@;
        let end: u32 = last as u32 + 1;
        let mut i: u32 = first as u32;
        while i < end
            invariant
                first <= i <= end,
                end == last + 1,
                1 <= first,
                ticket_word(last as int) < start.len(),
                self.tickets@ == mark_tickets(start, first as int, i as int),
                self.amount == old(self).amount + (last - first) + 1,
            decreases end - i,
        {
            proof {
                lemma_mark_tickets_holds(start, first as int, i as int, 0);
                assert(ticket_word(i as int) <= ticket_word(last as int));
            }
            self.set_ticket(i as usize);
            i = i + 1;
        }
        proof {
            assert(i == end);
            assert(start == old(self).tickets@);
            assert(self.tickets@ == mark_tickets(start, first as int, end as int));
            assert forall|j: int|
                #[trigger] holds_ticket(self.tickets@, j) == ((first <= j <= last) || holds_ticket(
                    start,
                    j,
                )) by {
                lemma_mark_tickets_holds(start, first as int, end as int, j);
            }
        }
    }

    /// Resets the bitmap: no ticket is held, and there is room for
    /// `MAX_TICKETS / BITARRAY_BITS + 1` words.
    pub fn init(&mut self)
        ensures
            final(self).amount == 0,
            final(self).tickets@ == Seq::new(init_words(), |k: int| 0u64),
            forall|i: int| !holds_ticket(final(self).tickets@, i),
    {
        self.amount = 0;
        self.tickets = vec![0u64; (MAX_TICKETS / BITARRAY_BITS) + 1];
        assert(self.tickets@ =~= Seq::new(init_words(), |k: int| 0u64));
        assert forall|i: int| !holds_ticket(self.tickets@, i) by {
            if ticket_in_range(self.tickets@, i) {
                let s = ticket_shift(i);
                assert((0u64 >> s) & 1 == 0) by (bit_vector);
            }
        }
    }
}

} // verus!
