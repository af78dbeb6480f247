//! Filtering the proposals of a commit and applying what is left of them.

pub mod acceptance_laws;
pub mod accumulator;
pub mod applier;
pub mod asked;
pub mod bundle;
pub mod commit_laws;
pub mod committer_laws;
pub mod error;
pub mod extension_laws;
pub mod external_commit;
pub mod filter_laws;
pub mod filtering;
pub mod ignored_laws;
pub mod laws;
pub mod leaf_conflicts;
pub mod leaf_laws;
pub mod newcomer_laws;
pub mod order_laws;
pub mod outcome;
pub mod psk;
pub mod question_laws;
pub mod resume;
pub mod rule_laws;
pub mod screening;
pub mod state;
pub mod step;
pub mod strategy;
pub mod validity_laws;
