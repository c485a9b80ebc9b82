//! What the loading of movies and data is told and tells.

use vstd::prelude::*;

verus! {

/// How movies are loaded.
#[derive(Clone, Copy, Debug, PartialEq, Eq, Structural)]
pub enum LoadBehavior {
    /// Movies run while they load.
    Streaming,
    /// Movies run once they have loaded.
    Delayed,
    /// The player waits until movies have loaded.
    Blocking,
}

/// The kinds of content that a loader can take.
#[derive(Clone, Copy, Debug, PartialEq, Eq, Structural)]
pub enum ContentType {
    Swf,
    Jpeg,
    Png,
    Gif,
    Unknown,
}

/// The format of an image inside a movie.
#[derive(Clone, Copy, Debug, PartialEq, Eq, Structural)]
pub enum JpegTagFormat {
    Jpeg,
    Png,
    Gif,
    Unknown,
}

/// How loaded data is handed to the script.
#[derive(Clone, Copy, Debug, PartialEq, Eq, Structural)]
pub enum DataFormat {
    Binary,
    Text,
    Variables,
}

/// How far the loading of a movie has come.
#[derive(Clone, Copy, Debug, PartialEq, Eq, Structural)]
pub enum LoaderStatus {
    /// The movie was not loaded yet.
    Pending,
    /// The movie is being parsed.
    Parsing,
    /// The movie was loaded.
    Succeeded,
    /// The movie could not be loaded.
    Failed,
}

/// Content of another type than was expected.
#[derive(Clone, Copy, Debug, PartialEq, Eq, Structural)]
pub struct UnexpectedData {
    pub expected: ContentType,
    pub found: ContentType,
}

impl ContentType {
    /// The content type of an image format.
    pub fn from_jpeg_tag_format(jtf: JpegTagFormat) -> (r: ContentType)
        ensures
            r == (match jtf {
                JpegTagFormat::Jpeg => ContentType::Jpeg,
                JpegTagFormat::Png => ContentType::Png,
                JpegTagFormat::Gif => ContentType::Gif,
                JpegTagFormat::Unknown => ContentType::Unknown,
            }),
    {
        match jtf {
            JpegTagFormat::Jpeg => ContentType::Jpeg,
            JpegTagFormat::Png => ContentType::Png,
            JpegTagFormat::Gif => ContentType::Gif,
            JpegTagFormat::Unknown => ContentType::Unknown,
        }
    }

    /// The name of the content type in messages.
    pub fn name(&self) -> (r: &'static str)
        ensures
            r@ == (match *self {
                ContentType::Swf => "SWF"@,
                ContentType::Jpeg => "JPEG"@,
                ContentType::Png => "PNG"@,
                ContentType::Gif => "GIF"@,
                ContentType::Unknown => "Unknown"@,
            }),
    {
        match *self {
            ContentType::Swf => "SWF",
            ContentType::Jpeg => "JPEG",
            ContentType::Png => "PNG",
            ContentType::Gif => "GIF",
            ContentType::Unknown => "Unknown",
        }
    }

    /// This content type, if it is the expected one.
    pub fn expect(self, expected: ContentType) -> (r: Result<ContentType, UnexpectedData>)
        ensures
            r == (if self == expected {
                Ok::<ContentType, UnexpectedData>(self)
            } else {
                Err::<ContentType, UnexpectedData>(UnexpectedData { expected, found: self })
            }),
    {
        if self == expected {
            Ok(self)
        } else {
            Err(UnexpectedData { expected, found: self })
        }
    }
}

} // verus!
