//! Resolution and reconciliation of the links between an application's
//! database labels and the databases of an account.
//!
//! The crate performs no input or output. Every workflow is a state machine
//! that hands its caller the next [`protocol::Request`] to carry out and is
//! resumed with the [`protocol::Reply`] that came back.
//!
//! - [`link`] links one database to an application under a label, and
//!   unlinks it.
//! - [`deploy`] reconciles all labels of an application, with the help of
//!   a [`strategy`] that resolves each label: by asking the user, or from
//!   declarations. A default name for a new database comes from [`names`].
//! - [`sqlite`] and [`listing`] hold the commands on the databases
//!   themselves. The tables of a listing are drawn by [`table`].
//! - [`catalog`] models what the requests do to the catalog, and proves
//!   that the workflows keep each label bound once and bind what they are
//!   asked to bind. [`runs`] carries this from single steps to whole runs.
//! - [`model`], [`error`], [`lookup`], [`search`], [`order`] and [`text`]
//!   hold what the others share.

pub mod catalog;
pub mod deploy;
pub mod error;
pub mod link;
pub mod listing;
pub mod lookup;
pub mod model;
pub mod names;
pub mod order;
pub mod protocol;
pub mod runs;
pub mod search;
pub mod sqlite;
pub mod strategy;
pub mod table;
pub mod text;
