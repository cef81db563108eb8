//! The editing core of a tool for drawing in the plane: points, and the
//! segments and arcs that join them.
//!
//! The core has three parts. The geometry store ([`model`]) holds the
//! points and the primitives, which reference points by index, and keeps
//! those references sound when a point is removed. The gesture state
//! machine ([`drawing`], [`framework`]) turns mouse events, under the
//! tool that is active, into edit intents. The undo journal
//! ([`undo_manager`]) holds for every mutation the record that reverses
//! it. The editor ([`editor`]) ties them together: it applies messages
//! to the store and reports each mutation to the journal.
//!
//! All coordinates are whole numbers: the drawing lives on an integer
//! lattice, distances are compared exactly, and whoever embeds the core
//! decides how its own numbers are rounded onto the lattice.
//!
//! Around the core stand what a drawing is loaded from and exported to
//! ([`load_model`], [`export`], [`foreign_functions`]) and a built-in
//! sample ([`excel_parse`]).

pub mod drawing;
pub mod editor;
pub mod excel_parse;
pub mod export;
pub mod foreign_functions;
pub mod framework;
pub mod load_model;
pub mod message;
pub mod model;
pub mod undo_manager;
