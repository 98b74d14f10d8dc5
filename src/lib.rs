//! Custom elements whose lifecycle logic is written in Rust: a bridge that the
//! host's element registry drives, one per element, which builds the widget
//! lazily and hands each lifecycle call on to it; and a registry of named
//! markup templates that widgets clone from.

pub mod bridge;
pub mod component;
pub mod templates;
