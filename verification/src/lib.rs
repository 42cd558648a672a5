//! Boot-time core of a small kernel: a PSF2 bitmap-font reader, a heap-region
//! selector for bringing up the allocator, and a double-buffered pixel console.
pub mod console;
pub mod font;
pub mod heap;
pub mod surface;
