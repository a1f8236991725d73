//! Turns untrusted, model-generated text into a decision of "run this exact
//! command" or "run nothing": a fenced-block extractor and a denylist safety
//! gate, together with the verified text handling around the remote
//! transcription and generation services.

pub mod extractor;
pub mod services;
