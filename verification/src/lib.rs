//! Core logic of a local translation front end: extraction of the final
//! answer from a model's streamed text, voice selection for speech, the
//! interface-label catalog, the application's state machine and its log.

pub mod text;
pub mod voice;
pub mod labels;
pub mod config;
pub mod session;
pub mod fonts;
