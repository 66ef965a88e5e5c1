//! A Vietnamese input-method engine.
//!
//! Raw keystrokes (Telex or VNI keying) are turned, one key at a time, into
//! edit actions (delete N rendered characters, insert these code points) that
//! a host text field applies.  The engine keeps a rolling buffer for the
//! current word and decides, per key, whether to pass the key through or to
//! emit a replacement edit.
//!
//! The crate is organised around one mathematical model:
//!
//! - [`keys`] — semantic key codes and key classification;
//! - [`chars`] — the base-letter + diacritic composition table;
//! - [`slot`] — the letter slots of the current word and its rendering;
//! - [`method`] — the Telex and VNI per-key classifiers;
//! - [`nucleus`] — the vowel nucleus and tone-mark placement;
//! - [`guard`] — the heuristic protecting intermixed English text;
//! - [`model`] — the engine state and its per-key transition, [`model::step`];
//! - [`engine`] — the executable [`engine::Engine`], proved to follow
//!   [`model::step`] on every key;
//! - [`laws`] — the engine's laws, proved over the model.

pub mod chars;
pub mod engine;
pub mod guard;
pub mod keys;
pub mod laws;
pub mod method;
pub mod model;
pub mod nucleus;
pub mod slot;
