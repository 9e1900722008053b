//! A read-only observer for a running game process: ELF introspection of
//! in-memory module images, offset discovery, and a per-tick walk of the
//! game's entity table that yields player snapshots.
//!
//! Reads of the target go through a [`pages::PageCache`]: a computation
//! over it either finishes, or stops with `Fault::Missing(page)` to ask for
//! a page, after which the caller fetches the page and runs it again.
pub mod address;
pub mod memory;
pub mod pages;
pub mod elf;
pub mod maps;
pub mod netvar;
pub mod interface;
pub mod offsets;
pub mod convar;
pub mod game;
pub mod pid;
