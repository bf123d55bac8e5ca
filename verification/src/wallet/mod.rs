//! The wallet: keys and addresses, the notes that a key owns, and the payments that
//! spend them.

pub mod keys;
pub mod payment;
pub mod scan;
pub mod state;
pub mod tree;
