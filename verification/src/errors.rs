//! Errors of the image service, each with the text that the service shows
//! for it.

use vstd::prelude::*;

verus! {

/// Text given for an image is neither a base64 data URL that decodes nor a URL.
#[derive(Debug, PartialEq, Eq)]
pub struct TextNotBase64Error;

impl TextNotBase64Error {
    /// The text shown for this error.
    pub open spec fn message(&self) -> Seq<char> {
        "Text is not valid base64"@
    }

    /// The text shown for this error.
    pub fn text(&self) -> (s: String)
        ensures
            s@ == self.message(),
    {
        String::from_str("Text is not valid base64")
    }
}

/// A header value that should be text is not UTF-8.
#[derive(Debug, PartialEq, Eq)]
pub struct TextNotUTF8Error;

impl TextNotUTF8Error {
    /// The text shown for this error.
    pub open spec fn message(&self) -> Seq<char> {
        "Text is not valid UTF-8"@
    }

    /// The text shown for this error.
    pub fn text(&self) -> (s: String)
        ensures
            s@ == self.message(),
    {
        String::from_str("Text is not valid UTF-8")
    }
}

/// Text given for an image is not a URL.
#[derive(Debug, PartialEq, Eq)]
pub struct TextNotURLError;

impl TextNotURLError {
    /// The text shown for this error.
    pub open spec fn message(&self) -> Seq<char> {
        "Text is not valid URL"@
    }

    /// The text shown for this error.
    pub fn text(&self) -> (s: String)
        ensures
            s@ == self.message(),
    {
        String::from_str("Text is not valid URL")
    }
}

/// A downloaded resource is neither PNG nor JPEG.
#[derive(Debug, PartialEq, Eq)]
pub struct UnsupportedImageFormatError;

impl UnsupportedImageFormatError {
    /// The text shown for this error.
    pub open spec fn message(&self) -> Seq<char> {
        "Unsupported image format, supported:Png, Jpeg"@
    }

    /// The text shown for this error.
    pub fn text(&self) -> (s: String)
        ensures
            s@ == self.message(),
    {
        String::from_str("Unsupported image format, supported:Png, Jpeg")
    }
}

/// The thumbnail image could not be created.
#[derive(Debug, PartialEq, Eq)]
pub struct CanNotCreateImage;

impl CanNotCreateImage {
    /// The text shown for this error.
    pub open spec fn message(&self) -> Seq<char> {
        "Can not create an image"@
    }

    /// The text shown for this error.
    pub fn text(&self) -> (s: String)
        ensures
            s@ == self.message(),
    {
        String::from_str("Can not create an image")
    }
}

/// An image could not be resized.
#[derive(Debug, PartialEq, Eq)]
pub struct CanNotResizeImage;

impl CanNotResizeImage {
    /// The text shown for this error.
    pub open spec fn message(&self) -> Seq<char> {
        "Can not resize an image"@
    }

    /// The text shown for this error.
    pub fn text(&self) -> (s: String)
        ensures
            s@ == self.message(),
    {
        String::from_str("Can not resize an image")
    }
}

/// The file for an image could not be created; `error` is the system's account of why.
#[derive(Debug, PartialEq, Eq)]
pub struct CanNotCreateImageFileError {
    pub path: String,
    pub error: String,
}

impl CanNotCreateImageFileError {
    /// The text shown for this error.
    pub open spec fn message(&self) -> Seq<char> {
        "Can not create image file \""@ + self.path@ + "\" error: \""@ + self.error@ + "\""@
    }

    /// The text shown for this error.
    pub fn text(&self) -> (s: String)
        ensures
            s@ == self.message(),
    {
        let mut s = String::from_str("Can not create image file \"");
        s.append(self.path.as_str());
        s.append("\" error: \"");
        s.append(self.error.as_str());
        s.append("\"");
        s
    }
}

/// The content of an image could not be written to its file.
#[derive(Debug, PartialEq, Eq)]
pub struct CanNotWriteImageFileError {
    pub path: String,
    pub error: String,
}

impl CanNotWriteImageFileError {
    /// The text shown for this error.
    pub open spec fn message(&self) -> Seq<char> {
        "Can not write image file \""@ + self.path@ + "\" error: \""@ + self.error@ + "\""@
    }

    /// The text shown for this error.
    pub fn text(&self) -> (s: String)
        ensures
            s@ == self.message(),
    {
        let mut s = String::from_str("Can not write image file \"");
        s.append(self.path.as_str());
        s.append("\" error: \"");
        s.append(self.error.as_str());
        s.append("\"");
        s
    }
}

/// The file of an image could not be read.
#[derive(Debug, PartialEq, Eq)]
pub struct CanNotReadImageFileError {
    pub path: String,
    pub error: String,
}

impl CanNotReadImageFileError {
    /// The text shown for this error.
    pub open spec fn message(&self) -> Seq<char> {
        "Can not read image file \""@ + self.path@ + "\" error: \""@ + self.error@ + "\""@
    }

    /// The text shown for this error.
    pub fn text(&self) -> (s: String)
        ensures
            s@ == self.message(),
    {
        let mut s = String::from_str("Can not read image file \"");
        s.append(self.path.as_str());
        s.append("\" error: \"");
        s.append(self.error.as_str());
        s.append("\"");
        s
    }
}

/// An image could not be downloaded from a URL; `error` is the status or the failure of the request.
#[derive(Debug, PartialEq, Eq)]
pub struct CanNodDownloadByURLError {
    pub url: String,
    pub error: String,
}

impl CanNodDownloadByURLError {
    /// The text shown for this error.
    pub open spec fn message(&self) -> Seq<char> {
        "Can not download by given URL \""@ + self.url@ + "\" error: \""@ + self.error@ + "\""@
    }

    /// The text shown for this error.
    pub fn text(&self) -> (s: String)
        ensures
            s@ == self.message(),
    {
        let mut s = String::from_str("Can not download by given URL \"");
        s.append(self.url.as_str());
        s.append("\" error: \"");
        s.append(self.error.as_str());
        s.append("\"");
        s
    }
}

/// A header value that should be a number is not one.
#[derive(Debug, PartialEq, Eq)]
pub struct CanNotParseAsNumberError {
    pub string: String,
}

impl CanNotParseAsNumberError {
    /// The text shown for this error.
    pub open spec fn message(&self) -> Seq<char> {
        "Can not parse \""@ + self.string@ + "\" as number"@
    }

    /// The text shown for this error.
    pub fn text(&self) -> (s: String)
        ensures
            s@ == self.message(),
    {
        let mut s = String::from_str("Can not parse \"");
        s.append(self.string.as_str());
        s.append("\" as number");
        s
    }
}

/// An image file could not be opened.
#[derive(Debug, PartialEq, Eq)]
pub struct CanNotOpenImage {
    path: String,
}

impl CanNotOpenImage {
    /// The text shown for this error.
    pub open spec fn message(&self) -> Seq<char> {
        "Can not open an image  \""@ + self.path_spec()@ + "\""@
    }

    /// The text shown for this error.
    pub fn text(&self) -> (s: String)
        ensures
            s@ == self.message(),
    {
        let mut s = String::from_str("Can not open an image  \"");
        s.append(self.path.as_str());
        s.append("\"");
        s
    }

    /// The error for the image file at `path`.
    pub fn new(path: String) -> (e: Self)
        ensures
            e.path_spec() == path,
    {
        CanNotOpenImage { path: path }
    }

    /// The path of the image file.
    pub closed spec fn path_spec(&self) -> String {
        self.path
    }
}

/// The thumbnail could not be saved to its file.
#[derive(Debug, PartialEq, Eq)]
pub struct CanNotSaveImage {
    path: String,
}

impl CanNotSaveImage {
    /// The text shown for this error.
    pub open spec fn message(&self) -> Seq<char> {
        "Can not save an image  \""@ + self.path_spec()@ + "\""@
    }

    /// The text shown for this error.
    pub fn text(&self) -> (s: String)
        ensures
            s@ == self.message(),
    {
        let mut s = String::from_str("Can not save an image  \"");
        s.append(self.path.as_str());
        s.append("\"");
        s
    }

    /// The error for the image file at `path`.
    pub fn new(path: String) -> (e: Self)
        ensures
            e.path_spec() == path,
    {
        CanNotSaveImage { path: path }
    }

    /// The path of the image file.
    pub closed spec fn path_spec(&self) -> String {
        self.path
    }
}

impl From<(String, String)> for CanNodDownloadByURLError {
    /// The error for a URL and the account of what went wrong.
    fn from(pair: (String, String)) -> (e: Self) {
        CanNodDownloadByURLError { url: pair.0, error: pair.1 }
    }
}

impl vstd::std_specs::convert::FromSpecImpl<(String, String)> for CanNodDownloadByURLError {
    open spec fn obeys_from_spec() -> bool {
        true
    }

    open spec fn from_spec(pair: (String, String)) -> Self {
        CanNodDownloadByURLError { url: pair.0, error: pair.1 }
    }
}

/// Every error that the service reports. `Message` carries a plain text.
#[derive(Debug, PartialEq, Eq)]
pub enum ImageError {
    TextNotBase64(TextNotBase64Error),
    TextNotUTF8(TextNotUTF8Error),
    TextNotURL(TextNotURLError),
    CanNotCreateImageFile(CanNotCreateImageFileError),
    CanNotWriteImageFile(CanNotWriteImageFileError),
    CanNotReadImageFile(CanNotReadImageFileError),
    UnsupportedImageFormat(UnsupportedImageFormatError),
    CanNotParseAsNumber(CanNotParseAsNumberError),
    CanNodDownloadByURL(CanNodDownloadByURLError),
    CanNotCreateImage(CanNotCreateImage),
    CanNotOpenImage(CanNotOpenImage),
    CanNotSaveImage(CanNotSaveImage),
    CanNotResizeImage(CanNotResizeImage),
    Message(String),
}

impl ImageError {
    /// The text shown for this error.
    pub open spec fn message(&self) -> Seq<char> {
        match self {
            ImageError::TextNotBase64(e) => e.message(),
            ImageError::TextNotUTF8(e) => e.message(),
            ImageError::TextNotURL(e) => e.message(),
            ImageError::CanNotCreateImageFile(e) => e.message(),
            ImageError::CanNotWriteImageFile(e) => e.message(),
            ImageError::CanNotReadImageFile(e) => e.message(),
            ImageError::UnsupportedImageFormat(e) => e.message(),
            ImageError::CanNotParseAsNumber(e) => e.message(),
            ImageError::CanNodDownloadByURL(e) => e.message(),
            ImageError::CanNotCreateImage(e) => e.message(),
            ImageError::CanNotOpenImage(e) => e.message(),
            ImageError::CanNotSaveImage(e) => e.message(),
            ImageError::CanNotResizeImage(e) => e.message(),
            ImageError::Message(m) => m@,
        }
    }

    /// The text shown for this error.
    pub fn text(&self) -> (s: String)
        ensures
            s@ == self.message(),
    {
        match self {
            ImageError::TextNotBase64(e) => e.text(),
            ImageError::TextNotUTF8(e) => e.text(),
            ImageError::TextNotURL(e) => e.text(),
            ImageError::CanNotCreateImageFile(e) => e.text(),
            ImageError::CanNotWriteImageFile(e) => e.text(),
            ImageError::CanNotReadImageFile(e) => e.text(),
            ImageError::UnsupportedImageFormat(e) => e.text(),
            ImageError::CanNotParseAsNumber(e) => e.text(),
            ImageError::CanNodDownloadByURL(e) => e.text(),
            ImageError::CanNotCreateImage(e) => e.text(),
            ImageError::CanNotOpenImage(e) => e.text(),
            ImageError::CanNotSaveImage(e) => e.text(),
            ImageError::CanNotResizeImage(e) => e.text(),
            ImageError::Message(m) => m.clone(),
        }
    }
}

} // verus!
