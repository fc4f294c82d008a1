//! How a chat turn is generated, stopped and saved.
//!
//! A turn follows a producer that streams an answer. The user may stop it at any
//! time until its answer is being stored. Each turn stores at most one message and
//! ends once.
//!
//! [`generation`] is the turn as a machine of events and actions. [`collect`] and
//! [`save`] are its two halves, [`exchange`] closes the tool calls of a stopped
//! turn, and [`turn`] holds the types that they share. [`history`] tells the next
//! turn of an answer that was stopped. [`generation_laws`] and [`exchange_laws`]
//! state what holds of every turn and of every exchange, [`course_laws`] what each
//! event of a turn leads to, and [`model_laws`] what the models show.
//! [`json`] is the JSON that passes through, and [`value`] takes it from
//! `serde_json` and hands it back.
pub mod collect;
pub mod course_laws;
pub mod exchange;
pub mod exchange_laws;
pub mod generation;
pub mod generation_laws;
pub mod history;
pub mod json;
pub mod model_laws;
pub mod save;
pub mod turn;
pub mod value;
