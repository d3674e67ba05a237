//! A family of linked lists, from a minimal stack of integers up to a
//! double-ended list with borrowing iterators. Every list is modelled by the
//! sequence of its elements and every operation is specified against that
//! sequence.
mod chain;
pub mod fifth;
pub mod first;
pub mod fourth;
pub mod second;
pub mod sixth;
pub mod third;
