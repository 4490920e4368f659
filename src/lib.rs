//! A catalog of shared links taken from chat messages: each message's embeds
//! are normalised into a `Resource`, fingerprinted, and kept in a relational
//! store that answers substring searches and random samples.

pub mod text;
pub mod resource;
pub mod store;
