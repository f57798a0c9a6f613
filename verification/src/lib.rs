//! The dispute, vote and settlement engine of an oracle market.
//!
//! A campaign awaits an outcome. Somebody calls one and posts a bond. Where
//! nobody whinges about the call in time, it is closed and the called
//! outcome wins. Where somebody does, and posts a bond too, stake holders
//! commit to predictions and reveal them, the outcome with the most stake
//! behind it is declared the winner, the stake of those who predicted
//! another is swept into a pot, and those who predicted the winner capture
//! their shares of it. A round that ends without a conclusion is followed
//! by another; a campaign that is not decided by its deadline escapes.
//!
//! - [`state`] holds the market as a mathematical value, and what always
//!   holds of it.
//! - [`rules`] and [`settlement`] state, for each operation, when it is
//!   refused and what it does.
//! - [`laws`] proves what follows for every sequence of operations.
//! - [`market`] holds the market as it is stored, whose operations are
//!   proved to follow the rules; [`campaign`], [`epoch`] and [`keyed`] hold
//!   its parts.
//! - [`timing`] names the periods of a round, [`commitment`] binds voters to
//!   predictions, [`action`] lists what an operation leaves to its caller,
//!   and [`fees`] and [`error`] hold the amounts and the causes of refusal.
//! - [`ident`], [`uint`] and [`encoding`] hold addresses, tags, words and
//!   256-bit amounts.

pub mod action;
pub mod campaign;
pub mod commitment;
pub mod encoding;
pub mod epoch;
pub mod error;
pub mod fees;
pub mod ident;
pub mod keyed;
pub mod laws;
pub mod market;
pub mod rules;
pub mod settlement;
pub mod state;
pub mod timing;
pub mod uint;
