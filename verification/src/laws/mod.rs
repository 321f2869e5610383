//! What holds of the operations as a whole: whatever the services reply, or run against a store.
pub mod acceptance;
pub mod attributes;
pub mod clearing;
pub mod clients;
pub mod contents;
pub mod entries;
pub mod failures;
pub mod handles;
pub mod history;
pub mod journal;
pub mod listing;
pub mod locking;
pub mod making;
pub mod moving;
pub mod names;
pub mod opening;
pub mod reading;
pub mod refusals;
pub mod removal;
pub mod renaming;
pub mod run;
pub mod shape;
pub mod sizes;
pub mod spelling;
pub mod steps;
pub mod store;
pub mod transfers;
pub mod trees;
pub mod ways;
