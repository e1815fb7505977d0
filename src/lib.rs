//! Read-only inspection of FAT16 filesystem images held in memory.
pub mod bytes;
pub mod content;
pub mod dir;
pub mod fat;
pub mod scan;
