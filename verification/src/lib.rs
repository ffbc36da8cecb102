//! Bulk generation of pseudo-random passwords drawn from user-supplied
//! alphabets, with the guarantee that every alphabet contributes at least
//! one of its symbols to each password.

pub mod generator;
mod random;
