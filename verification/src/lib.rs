//! Silence and voice in the organization: the discrete, verified core of an
//! agent-based model of the Fujimura & Hino (2019) structural-equation model
//! (psychological safety → fear → acquiescence → silence, fear → voice).
//!
//! - `config`: decision mode, prompt variant, organisation size.
//! - `world`: locale, silence motives, public expression, placement of employees.
//! - `prompts`: prompt wording and the reading of the model's JSON reply.
//! - `metrics`: per-step counts of voice, silence and motives; reply bookkeeping.
//! - `cli`: list-valued command-line arguments.
//! - `text`: trimming, ASCII case mapping and comparison of character sequences.

pub mod cli;
pub mod config;
pub mod metrics;
pub mod prompts;
pub mod text;
pub mod world;
