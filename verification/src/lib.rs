//! A custodial escrow ledger: a depositor ("asker") places a bounty of value
//! units in custody under an external question identifier, and later resolves
//! it exactly once — either awarding the full amount to a designated winner or
//! cancelling and reclaiming it. Every operation checks authorization and the
//! record's state, moves value atomically, and preserves the total value held
//! by the ledger.

pub mod keys;
pub mod model;
pub mod ledger;
pub mod laws;
