//! A bounded, lifetime-checked reference arena.
//!
//! The arena owns a growable sequence of slots and hands out copyable
//! handles to the values stored in them.  A handle never owns the value it
//! refers to: it carries the slot's index together with the generation the
//! slot had when the value was inserted, and every access revalidates that
//! token, so use of a handle after its slot was freed or reused is detected
//! and refused rather than prevented.  A runtime borrow tracker per slot
//! enforces the usual aliasing discipline: any number of shared borrows or
//! one exclusive borrow, never both.

pub mod arena;
pub mod exercises;
