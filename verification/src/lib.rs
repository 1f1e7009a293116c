//! Engines behind a family of compile-time code generators: a builder
//! synthesizer, a debug-impl synthesizer, an order checker for enums and match
//! arms, and a repetition engine over token trees.
//!
//! Every engine is a pure function from a typed syntax fragment to a
//! replacement fragment or a diagnostic anchored at a source location.
//!
//! - [`token`] and [`syntax`] hold the fragments: token trees, and the typed
//!   syntax of types, attributes, fields, generics, items and expressions.
//! - [`diag`] holds the diagnostics.
//! - [`shape`] classifies the fields of a struct and reads their
//!   configuration attributes.
//! - [`builder`] emits a companion builder type; [`builder::model`] says what
//!   that builder does when it runs.
//! - [`debug`] emits an implementation of `std::fmt::Debug`;
//!   [`debug::bounds`] decides the bounds of its type parameters.
//! - [`sorted`] holds the variants of an enum and the arms of a marked
//!   `match` to the order of their names.
//! - [`seq`] expands `N in A..B { body }`.
//! - [`lit`] asks the lexer of the host language for the values of literals.

pub mod builder;
pub mod debug;
pub mod diag;
pub mod lit;
pub mod seq;
pub mod shape;
pub mod sorted;
pub mod syntax;
pub mod text;
pub mod token;
