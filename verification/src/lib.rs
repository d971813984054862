//! Transactional core of a play-for-ownership game economy.
//!
//! Items (players, NPC-manager tokens, squad tokens) are minted, held,
//! listed, auctioned and transferred between accounts; accounts may run
//! head-to-head matches with a validated result payload; a pool of NPC
//! managers is allocated to users from a shared inventory.
//!
//! Every operation is a function from the current table state, the host's
//! timestamp and the caller's arguments to a new state and a result: the
//! hosting layer owns storage, transactions and authentication, and applies
//! each operation's writes atomically.

pub mod wei;
pub mod text;
pub mod ids;
pub mod rows;
pub mod state;
pub mod ledger;
pub mod market;
pub mod pvp;
pub mod guard;
pub mod npc;
pub mod starter;
