//! Settlement rules of a swap and loan desk on a confidential-asset chain:
//! trade accounting, quoting, swap and loan validation, and the schedule of
//! liquidations, each stated and proved over plain values.

pub mod accounting;
pub mod assets;
pub mod backup;
pub mod confidential;
pub mod hexcode;
pub mod liquidation;
pub mod loan;
pub mod messages;
pub mod order;
pub mod problem;
pub mod rate;
pub mod swap;
pub mod wallet;
