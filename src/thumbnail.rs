//! Fetching a thumbnail through its cache file.
//!
//! The cache file sits beside the source image and is held under an exclusive
//! lock for the whole fetch, so that one writer at a time fills it. The
//! program around the library performs each file operation and reports its
//! outcome; a fetch decides what comes next:
//!
//! 1. open the cache file, creating it but keeping its contents, and lock it;
//! 2. read it; a WebP image of the right size is reused as it is;
//! 3. otherwise empty the file, read the source image, scale it and store the
//!    encoded thumbnail in the file.
//!
//! Failing to open, lock, read or empty the cache file is `OpenThumbnail`;
//! failing to read or decode the source is `OpenImage`; failing to encode or
//! store the thumbnail is `GenerateImage`.
use vstd::prelude::*;

use crate::collection::copy_bytes;
use crate::error::Error;
use crate::imaging::{
    decodable_size, decodes_as_image, image_decoded, is_reusable, is_square_of, is_webp_image,
    make_thumbnail, resized_rgba, reuse_thumbnail, webp_encoding, Picture, WEBP_MAX_SIDE,
};
use crate::paths::{is_file_path, names_file, thumbnail_path, thumbnail_path_of};

verus! {

/// How far a fetch has come: the operation it waits on.
#[derive(Debug, Clone, Copy, PartialEq, Eq, Structural)]
pub enum FetchStage {
    Open,
    ReadCached,
    Reset,
    ReadSource,
    Store,
    Finished,
}

/// The file operation to perform next, or the fetch's result.
#[derive(Debug)]
pub enum ThumbnailAction {
    /// Open the cache file at `path` for reading and writing, creating it
    /// without truncating it, and lock it exclusively.
    OpenAndLock { path: Vec<u8> },
    /// Read the whole cache file.
    ReadCached,
    /// Empty the cache file.
    Reset,
    /// Read the source image at `path`.
    ReadSource { path: Vec<u8> },
    /// Write `bytes` to the emptied cache file.
    Store { bytes: Vec<u8> },
    /// Unlock the cache file; the fetch is over.
    Finish { result: Result<Picture, Error> },
}

/// The outcome of the operation last asked for.
#[derive(Debug)]
pub enum ThumbnailEvent {
    /// The operation failed.
    Failed,
    Opened,
    /// The cache file holds `bytes`.
    Cached { bytes: Vec<u8> },
    Emptied,
    /// The source image file holds `bytes`.
    Source { bytes: Vec<u8> },
    Stored,
}

/// What each stage produces for the caller: the action that goes with it.
pub open spec fn action_matches(stage: FetchStage, a: ThumbnailAction) -> bool {
    match stage {
        FetchStage::Open => a is OpenAndLock,
        FetchStage::ReadCached => a is ReadCached,
        FetchStage::Reset => a is Reset,
        FetchStage::ReadSource => a is ReadSource,
        FetchStage::Store => a is Store,
        FetchStage::Finished => a is Finish,
    }
}

/// `a` ends the fetch with the error `e` about the source image at `source`.
pub open spec fn fails_with_open_thumbnail(a: ThumbnailAction, source: Seq<u8>) -> bool {
    a matches ThumbnailAction::Finish { result: Err(Error::OpenThumbnail { path }) } && path@ == source
}

/// `a` ends the fetch with a thumbnail of `size` pixels a side.
pub open spec fn finishes_with_square(a: ThumbnailAction, size: u32) -> bool {
    a matches ThumbnailAction::Finish { result: Ok(p) } && is_square_of(p, size)
}

/// `a` stores a thumbnail that a later fetch of `size` pixels a side reuses:
/// a WebP image of `size` pixels a side. (Stored thumbnails too large for the
/// decoder's allocation limit are made afresh each time.)
pub open spec fn stores_square_webp(a: ThumbnailAction, size: u32) -> bool {
    a matches ThumbnailAction::Store { bytes } && is_reusable(bytes@, size)
}

/// `a` ends the fetch with the image that `bytes` decode to as WebP, `size`
/// pixels a side.
pub open spec fn finishes_with_decoded(a: ThumbnailAction, bytes: Seq<u8>, size: u32) -> bool {
    a matches ThumbnailAction::Finish { result: Ok(p) } && is_square_of(p, size) && is_webp_image(
        p,
        bytes,
    )
}

/// `a` ends the fetch with a picture whose pixels are `pixels`.
pub open spec fn finishes_with_pixels(a: ThumbnailAction, pixels: Seq<u8>) -> bool {
    a matches ThumbnailAction::Finish { result: Ok(p) } && p@.pixels == pixels
}

/// The pixels of the source image in `source`, scaled to `size` pixels a side.
pub open spec fn scaled_source(source: Seq<u8>, size: u32) -> Seq<u8> {
    let d = image_decoded(source)->Some_0;
    resized_rgba(d.0, d.1, d.2, size)
}

/// `a` stores the WebP encoding of the `size`-pixel square image `pixels`.
pub open spec fn stores_encoding_of(a: ThumbnailAction, size: u32, pixels: Seq<u8>) -> bool {
    a matches ThumbnailAction::Store { bytes } && bytes@ == webp_encoding(size, size, pixels)
}

/// One fetch of the thumbnail of a source image.
pub struct ThumbnailFetch {
    source: Vec<u8>,
    size: u32,
    stage: FetchStage,
    made: Option<Picture>,
}

impl ThumbnailFetch {
    /// The source image's path.
    pub closed spec fn source(&self) -> Seq<u8> {
        self.source@
    }

    /// The side of the thumbnail, in pixels.
    pub closed spec fn size(&self) -> u32 {
        self.size
    }

    /// The pixels of the thumbnail made and waiting to be stored.
    pub closed spec fn made_pixels(&self) -> Seq<u8> {
        self.made->Some_0@.pixels
    }

    /// The operation the fetch waits on.
    pub closed spec fn stage(&self) -> FetchStage {
        self.stage
    }

    /// The fetch keeps the thumbnail it made, of its size, while it is stored.
    pub closed spec fn wf(&self) -> bool {
        self.stage == FetchStage::Store ==> self.made is Some && is_square_of(
            self.made->Some_0,
            self.size,
        )
    }

    /// Starts fetching the thumbnail, `size` pixels a side, of the image at
    /// `source`: the first action opens and locks its cache file. A path that
    /// names no file has no cache file, and fails with `OpenThumbnail`.
    pub fn start(source: &Vec<u8>, size: u32) -> (r: (ThumbnailFetch, ThumbnailAction))
        ensures
            r.0.wf(),
            r.0.source() == source@,
            r.0.size() == size,
            action_matches(r.0.stage(), r.1),
            is_file_path(source@) ==> r.0.stage() == FetchStage::Open && (r.1 matches ThumbnailAction::OpenAndLock { path }
                && path@ == thumbnail_path_of(source@)),
            !is_file_path(source@) ==> r.0.stage() == FetchStage::Finished && fails_with_open_thumbnail(
                r.1,
                source@,
            ),
    {
        let fetch_source = copy_bytes(source);
        if names_file(source) {
            let path = thumbnail_path(source);
            let fetch = ThumbnailFetch { source: fetch_source, size, stage: FetchStage::Open, made: None };
            (fetch, ThumbnailAction::OpenAndLock { path })
        } else {
            let fetch = ThumbnailFetch {
                source: fetch_source,
                size,
                stage: FetchStage::Finished,
                made: None,
            };
            let path = copy_bytes(source);
            (fetch, ThumbnailAction::Finish { result: Err(Error::OpenThumbnail { path }) })
        }
    }

    fn finish(&mut self, result: Result<Picture, Error>) -> (r: ThumbnailAction)
        ensures
            final(self).stage() == FetchStage::Finished,
            final(self).source() == old(self).source(),
            final(self).size() == old(self).size(),
            final(self).wf(),
            r == (ThumbnailAction::Finish { result }),
    {
        self.stage = FetchStage::Finished;
        self.made = None;
        ThumbnailAction::Finish { result }
    }

    fn open_thumbnail_failed(&mut self) -> (r: ThumbnailAction)
        ensures
            final(self).stage() == FetchStage::Finished,
            final(self).source() == old(self).source(),
            final(self).size() == old(self).size(),
            final(self).wf(),
            fails_with_open_thumbnail(r, old(self).source()),
    {
        let path = copy_bytes(&self.source);
        self.finish(Err(Error::OpenThumbnail { path }))
    }

    /// Takes the outcome of the last action and returns the next one.
    ///
    /// A failed operation, or an outcome that does not answer the operation
    /// asked for, ends the fetch with the error of that stage. A finished
    /// fetch stays finished.
    pub fn step(&mut self, event: ThumbnailEvent) -> (r: ThumbnailAction)
        requires
            old(self).wf(),
        ensures
            final(self).wf(),
            final(self).source() == old(self).source(),
            final(self).size() == old(self).size(),
            action_matches(final(self).stage(), r),
            match (old(self).stage(), event) {
                (FetchStage::Open, ThumbnailEvent::Opened) => final(self).stage() == FetchStage::ReadCached,
                (FetchStage::Open, _) => fails_with_open_thumbnail(r, old(self).source()),
                (FetchStage::ReadCached, ThumbnailEvent::Cached { bytes }) => {
                    &&& is_reusable(bytes@, old(self).size()) ==> finishes_with_decoded(r, bytes@, old(self).size())
                    &&& !is_reusable(bytes@, old(self).size()) ==> final(self).stage() == FetchStage::Reset
                },
                (FetchStage::ReadCached, _) => fails_with_open_thumbnail(r, old(self).source()),
                (FetchStage::Reset, ThumbnailEvent::Emptied) => r matches ThumbnailAction::ReadSource { path } && path@
                    == old(self).source(),
                (FetchStage::Reset, _) => fails_with_open_thumbnail(r, old(self).source()),
                (FetchStage::ReadSource, ThumbnailEvent::Source { bytes }) => {
                    &&& !decodes_as_image(bytes@) ==> (r matches ThumbnailAction::Finish {
                        result: Err(Error::OpenImage { path }),
                    } && path@ == old(self).source())
                    &&& decodes_as_image(bytes@) && 1 <= old(self).size() <= WEBP_MAX_SIDE ==> {
                        &&& final(self).stage() == FetchStage::Store
                        &&& final(self).made_pixels() == scaled_source(bytes@, old(self).size())
                        &&& stores_encoding_of(r, old(self).size(), scaled_source(bytes@, old(self).size()))
                        &&& decodable_size(old(self).size(), old(self).size()) ==> stores_square_webp(
                            r,
                            old(self).size(),
                        )
                    }
                    &&& decodes_as_image(bytes@) && !(1 <= old(self).size() <= WEBP_MAX_SIDE) ==> (r matches ThumbnailAction::Finish {
                        result: Err(Error::GenerateImage),
                    })
                },
                (FetchStage::ReadSource, _) => r matches ThumbnailAction::Finish {
                    result: Err(Error::OpenImage { path }),
                } && path@ == old(self).source(),
                (FetchStage::Store, ThumbnailEvent::Stored) => {
                    &&& finishes_with_square(r, old(self).size())
                    &&& finishes_with_pixels(r, old(self).made_pixels())
                },
                (FetchStage::Store, _) => r matches ThumbnailAction::Finish { result: Err(Error::GenerateImage) },
                (FetchStage::Finished, _) => final(self).stage() == FetchStage::Finished && (r matches ThumbnailAction::Finish {
                    result: Err(Error::GenerateImage),
                }),
            },
    {
        match self.stage {
            FetchStage::Open => match event {
                ThumbnailEvent::Opened => {
                    self.stage = FetchStage::ReadCached;
                    ThumbnailAction::ReadCached
                },
                _ => self.open_thumbnail_failed(),
            },
            FetchStage::ReadCached => match event {
                ThumbnailEvent::Cached { bytes } => match reuse_thumbnail(bytes.as_slice(), self.size) {
                    Some(img) => self.finish(Ok(img)),
                    None => {
                        self.stage = FetchStage::Reset;
                        ThumbnailAction::Reset
                    },
                },
                _ => self.open_thumbnail_failed(),
            },
            FetchStage::Reset => match event {
                ThumbnailEvent::Emptied => {
                    self.stage = FetchStage::ReadSource;
                    ThumbnailAction::ReadSource { path: copy_bytes(&self.source) }
                },
                _ => self.open_thumbnail_failed(),
            },
            FetchStage::ReadSource => match event {
                ThumbnailEvent::Source { bytes } => {
                    match make_thumbnail(&self.source, bytes.as_slice(), self.size) {
                        Ok(thumbnail) => {
                            self.stage = FetchStage::Store;
                            self.made = Some(thumbnail.image);
                            ThumbnailAction::Store { bytes: thumbnail.encoded }
                        },
                        Err(e) => self.finish(Err(e)),
                    }
                },
                _ => {
                    let path = copy_bytes(&self.source);
                    self.finish(Err(Error::OpenImage { path }))
                },
            },
            FetchStage::Store => match event {
                ThumbnailEvent::Stored => {
                    let made = self.made.take();
                    match made {
                        Some(img) => self.finish(Ok(img)),
                        None => self.finish(Err(Error::GenerateImage)),
                    }
                },
                _ => self.finish(Err(Error::GenerateImage)),
            },
            FetchStage::Finished => self.finish(Err(Error::GenerateImage)),
        }
    }
}

} // verus!
