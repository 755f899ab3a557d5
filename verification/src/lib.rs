//! Segmented queue storage for a Postgres-backed job queue: the storage
//! engine's routing, ring, payload, and row-transition rules, each stated as
//! a contract and proved.
#![allow(unused_imports)]

use vstd::prelude::*;

pub mod addressing;
pub mod answers;
pub mod callback;
pub mod cancel;
pub mod claiming;
pub mod claims;
pub mod clauses;
pub mod clock;
pub mod completion;
pub mod copy;
pub mod counts;
pub mod cursor;
pub mod distinct;
pub mod dlq;
pub mod enqueue;
pub mod error;
pub mod forms;
pub mod hydrate;
pub mod install;
pub mod intake;
pub mod job;
pub mod json;
pub mod keeping;
pub mod lanes;
pub mod lookup;
pub mod moves;
pub mod names;
pub mod order;
pub mod outside;
pub mod owed;
pub mod passage;
pub mod payload;
pub mod placement;
pub mod prune;
pub mod refusals;
pub mod rescue;
pub mod ring;
pub mod rollup;
pub mod rounds;
pub mod routing;
pub mod rows;
pub mod select;
pub mod settling;
pub mod sql;
pub mod steps;
pub mod storage;
pub mod tally;
pub mod terminal;
pub mod text;
pub mod transitions;
pub mod unique;
