//! GigaAM-v3 speech recognition: from a recording to Russian text.
//!
//! A recording becomes features ([`features`]), which networks turn into scores;
//! the scores become tokens ([`decode`] for the CTC variant, [`rnnt`] for the
//! RNN-T variant) and the tokens text by the vocabulary ([`vocab`]). [`model`]
//! puts these together. [`registry`] lists the models that can be had; [`engine`]
//! keeps track of which is on disk, downloaded ([`download`]) or loaded. On top
//! stand the user's [`commands`], the transcription [`provider`] and the global
//! recording shortcut ([`shortcuts`]).
//!
//! The library holds what is decided and computed on whole numbers and text.
//! Samples and scores are the bit patterns of single-precision numbers. Running
//! a network, and the arithmetic on samples, are functions that a caller hands
//! in; disk, network and system are touched by the caller, who hands in what
//! came of it.
pub mod commands;
pub mod decode;
pub mod download;
pub mod engine;
pub mod error;
pub mod features;
pub mod model;
pub mod provider;
pub mod registry;
pub mod rnnt;
pub mod shortcuts;
pub mod tensor;
pub mod text;
pub mod vocab;
