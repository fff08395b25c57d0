use vstd::prelude::*;

use crate::errors::ErrorCode;
use crate::state::{Collection, Key, Raffle, MAX_COLLECTIONS};

verus! {

/// Whether creating a raffle that ends at `end_date` with `collections`,
/// at time `now`, is accepted, and the error when it is not.
pub open spec fn create_raffle_outcome(
    end_date: i64,
    collections: Seq<Collection>,
    now: i64,
) -> Result<(), ErrorCode> {
    if collections.len() > MAX_COLLECTIONS {
        Err(ErrorCode::CannotBeMoreThanThree)
    } else if end_date < now {
        Err(ErrorCode::WrongEndDate)
    } else {
        Ok(())
    }
}

/// Sets up a raffle that ends at `end_date` and accepts entries from
/// `collections`, on behalf of `authority`, at time `now`.
///
/// Refused with `CannotBeMoreThanThree` when more than `MAX_COLLECTIONS`
/// collections are given, and otherwise with `WrongEndDate` when `end_date`
/// is already past. On success the owner, bump, end date and collections are
/// written and the ticket count is reset; the other fields keep their value.
pub fn handler(
    raffle: &mut Raffle,
    authority: Key,
    bump: u8,
    end_date: i64,
    collections: Vec<Collection>,
    now: i64,
) -> (res: Result<(), ErrorCode>)
    ensures
        res == create_raffle_outcome(end_date, collections@, now),
        collections@.len() > 3 ==> res == Err::<(), ErrorCode>(ErrorCode::CannotBeMoreThanThree),
        collections@.len() <= 3 && end_date < now ==> res == Err::<(), ErrorCode>(
            ErrorCode::WrongEndDate,
        ),
        collections@.len() <= 3 && end_date >= now ==> res is Ok,
        res is Err ==> *final(raffle) == *old(raffle),
        res is Ok ==> {
            &&& final(raffle).owner == authority
            &&& final(raffle).bump == bump
            &&& final(raffle).end_date == end_date
            &&& final(raffle).collections@ == collections@
            &&& final(raffle).sold_tickets == 0
            &&& final(raffle).entries == old(raffle).entries
            &&& final(raffle).max_entries == old(raffle).max_entries
            &&& final(raffle).reward == old(raffle).reward
        },
{
    if collections.len() > MAX_COLLECTIONS {
        return Err(ErrorCode::CannotBeMoreThanThree);
    }
    if end_date < now {
        return Err(ErrorCode::WrongEndDate);
    }
    raffle.owner = authority;
    raffle.bump = bump;
    raffle.end_date = end_date;
    raffle.collections = collections;
    raffle.sold_tickets = 0;
    Ok(())
}

} // verus!
