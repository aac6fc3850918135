//! Pieces of the default interpreter that compute on values alone.

pub mod cmpchain;
pub mod fastpath;
