//! State and rules of one training career: a trainee, a deck of support cards, the events
//! of the career, and the turn-by-turn rules that every scenario shares.

pub mod args;
pub mod card;
pub mod chance;
pub mod counts;
pub mod data;
pub mod event;
pub mod game;
pub mod laws;
pub mod session;
pub mod text;
pub mod uma;
