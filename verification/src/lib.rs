//! A sandboxed, collection-based file store for wallpaper images, and the
//! protocol by which a stored image is applied as the device wallpaper.
//!
//! The library decides; the application around it performs the file and
//! platform operations that the decisions call for.

pub mod collection;
pub mod error;
pub mod files;
pub mod meta;
pub mod path;
pub mod text;
pub mod wallpaper;
