//! A single-user productivity tracker: activities with daily targets and an
//! at-most-one ongoing session, todos kept in named buckets, and the key-driven
//! state machines of its two interactive windows.
use vstd::prelude::*;

pub mod clock;
pub mod dispatch;
pub mod history;
pub mod keys;
pub mod model;
pub mod recommend;
pub mod state;
pub mod todo;
pub mod track;
