//! A structured text-generation engine for a Nix-like configuration
//! language.
//!
//! Callers build a tree of [`binding::Binding`], [`reference::Reference`],
//! [`reference::ReferenceList`] and [`block::ConfigurationBlock`] values,
//! wrap it in a [`document::Document`] and render it once.  The engine
//! collects the bindings the tree depends on, hoists each distinct one
//! into a single `let … in` prelude in first-encounter order, and emits
//! nested, indentation-correct blocks.
//!
//! Rendering is available two ways with the same tree walk: the engine's
//! own verified text assembly ([`document::Document::render`]), and the
//! external pretty-printer driven through [`printer`].  The guarantees of
//! the engine — determinism, deduplication, order and nesting — are
//! stated and proved in [`laws`].

pub mod binding;
pub mod block;
pub mod dedup;
pub mod document;
pub mod laws;
pub mod lines;
pub mod printer;
pub mod reference;
