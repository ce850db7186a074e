//! A to-do list kept in memory. `logic` holds the store and its operations,
//! `model` says what they mean, `msg` carries out the requests of a
//! front-end, `sample` makes a small store to show, and `vec_ext` removes the
//! first element of a vector that a predicate accepts.

pub mod logic;
pub mod model;
pub mod msg;
pub mod sample;
pub mod vec_ext;
