//! A small terminal casino's verified core: exact fixed-point money, cards
//! and a self-reshuffling shoe, the blackjack round engine with its staking
//! and settlement rules, and the simpler one-shot resolvers for craps,
//! roulette and the slot machine. The host program around it owns the
//! prompts, the pacing and the files.
pub mod blackjack;
pub mod cards;
pub mod config;
pub mod craps;
pub mod money;
pub mod roulette;
pub mod slots;
pub mod statistics;
