//! A directory-listing library: the records that a listing is made of, how a
//! directory read becomes a listing, and the text that the listing prints as.

pub mod clock;
pub mod listing;
pub mod metadata;
pub mod text;
