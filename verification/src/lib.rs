//! Core logic of a tool-calling server that hosts sandboxed plugins.
//!
//! Plugins are binary modules acquired from a local path, an HTTP URL, or a
//! content-addressed registry; each plugin declares the tools it offers, and
//! incoming tool invocations are routed to the owning plugin. This crate
//! holds the decision logic: classifying plugin sources, deriving cache file
//! names for registry artifacts, translating a declared trust policy into a
//! sandbox capability manifest, maintaining the tool-routing index with
//! collision detection, and mapping sandbox call outcomes to typed results.
//! Fetching bytes, instantiating modules, and speaking the wire protocol are
//! left to the surrounding program.

pub mod acquire;
pub mod config;
pub mod dispatch;
pub mod index;
pub mod sandbox;
pub mod service;
pub mod source;
