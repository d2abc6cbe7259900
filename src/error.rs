use vstd::prelude::*;

verus! {

/// What can go wrong while scanning, drawing or rendering a challenge.
///
/// Paths are the raw bytes of the file system path concerned.
#[derive(Debug)]
pub enum Error {
    /// A directory could not be listed.
    Scan { path: Vec<u8> },
    /// A collection directory's name is not valid UTF-8.
    CollectionName { path: Vec<u8> },
    /// Too few collections, or too few images in the chosen ones, to fill a grid.
    InsufficientCollections,
    /// A source image could not be read or decoded.
    OpenImage { path: Vec<u8> },
    /// A thumbnail file could not be opened or locked.
    OpenThumbnail { path: Vec<u8> },
    /// An image could not be composed or encoded.
    GenerateImage,
    /// A challenge id is not a UUID.
    ParseUuid,
}

} // verus!
