//! Archive collaborators, behind trusted boundaries.

pub mod zip;
