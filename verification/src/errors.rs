use vstd::prelude::*;

verus! {

/// The ways an instruction of the raffle can be refused.
#[derive(Debug, Clone, Copy, PartialEq, Eq, Structural)]
pub enum ErrorCode {
    RaffleNotEnded,
    WrongMaxEntries,
    RaffleEnded,
    InvalidRaffleAccount,
    NotAllowedToRequestWinner,
    NotAllowedToClaimNow,
    RandomNoNotSelected,
    NoWinner,
    AllSold,
    WrongEndDate,
    PriceCannotBeZero,
    CannotBeMoreThanThree,
    AllWinnerDeclared,
    AllWinnersNotDeclared,
    RandomNotFound,
    NoBalance,
    NoTicketsSold,
    NoEligibleEntries,
    NoRewardItemFound,
}

} // verus!
