//! Assembly of OpenGEX scene documents.
//!
//! A grammar engine turns the text of a document into a flat stream of tokens.
//! This library turns that stream into a tree of structures, classifies the
//! kind-tagged structures into closed variants, resolves named and positional
//! references against tables of shared objects, and builds the node hierarchy
//! of the scene.

pub mod error;
pub mod scalar;
pub mod text;
pub mod nesting;
pub mod exponent;
pub mod tree;
pub mod stream;
pub mod lookup;
pub mod gather;
pub mod structure;
pub mod classify;
pub mod sparse;
pub mod table;
pub mod transformations;
pub mod animation;
pub mod objects;
pub mod nodes;
pub mod scene;
pub mod invariants;
pub mod io;
