//! Converts one captured frame of immediate-mode drawing commands into a
//! static vector-graphics document.
//!
//! A host hands over what it has painted as a [`command::Frame`]: layers of
//! clipped draw commands. [`snapshot`] turns a whole frame into a document;
//! [`capture_scope`] turns what a stretch of rendering adds to a frame into
//! a document of its own, moved to the origin. Both go the same way: the
//! layers are read in paint order ([`capture`]), their commands are grouped
//! by clip rectangle ([`clip`]), each command becomes a node ([`convert`],
//! [`text`]), and the nodes become elements of the `svg` crate ([`emit`],
//! [`markup`]). What holds of every conversion is proved in [`laws`].
//!
//! All geometry is held in whole numbers of a sub-pixel unit that the host
//! chooses; the document carries the same unit, and its view box scales it
//! back. Nothing here keeps state between calls.

pub mod capture;
pub mod chars;
pub mod clip;
pub mod command;
pub mod convert;
pub mod decimal;
pub mod emit;
pub mod geometry;
pub mod laws;
pub mod markup;
pub mod node;
pub mod options;
pub mod text;

pub use crate::emit::{capture_scope, shape_to_path, snapshot};
pub use crate::options::{ConversionOptions, MeshMode, TextMode};
