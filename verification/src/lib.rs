//! Small puzzles with their inputs validated by type, each proved against
//! a statement of what it computes: a bounded integer, the most points one
//! window can cover, a rule on shots and retaliations, and the value types
//! of a transaction client.

pub mod boss_babys_revenge;
pub mod coverage;
pub mod http_request;
pub mod limited_input_range;
pub mod supermans_chicken_rescue;
