//! The image store: what an uploaded text or file asks for, the allocation of
//! image indices and the names of the stored files, the steps of storing an
//! upload with its thumbnail, and the decision taken on a downloaded response.

use vstd::prelude::*;
use vstd::utf8::{decode_utf8, encode_utf8, valid_utf8};

use crate::codecs::{base64_decoding, decode_base64, parses_as_url, url_parses, utf8_str};
use crate::errors::{
    CanNotCreateImage, CanNotCreateImageFileError, CanNotOpenImage, CanNotSaveImage,
    CanNotWriteImageFileError, CanNodDownloadByURLError, CanNotParseAsNumberError, ImageError,
    TextNotBase64Error, TextNotUTF8Error, UnsupportedImageFormatError,
};
use crate::text::{decimal, lemma_decimal_reads_back, parse_usize, parsed_usize, push_decimal};

verus! {

/// The formats that an image can be given in.
#[derive(Debug, Clone, Copy, PartialEq, Eq, Structural)]
pub enum ImageFormat {
    Png,
    Jpeg,
}

/// What a user hands in for a new image: a text (a data URL or a URL) or the
/// content of a file.
#[derive(Debug, PartialEq, Eq)]
pub enum PutImageInput {
    Text(String),
    Content(Vec<u8>),
}

/// What is to be done for an accepted input: store the given bytes, or fetch
/// the image at the given URL first.
#[derive(Debug, PartialEq, Eq)]
pub enum PutImageAction {
    Upload(Vec<u8>),
    Download(String),
}

/// The prefix of a data URL that holds a base64 PNG image.
pub open spec fn png_data_prefix() -> Seq<char> {
    "data:image/png;base64,"@
}

/// The prefix of a data URL that holds a base64 JPEG image.
pub open spec fn jpeg_data_prefix() -> Seq<char> {
    "data:image/jpeg;base64,"@
}

/// `p` is a prefix of `s`.
pub open spec fn has_prefix(s: Seq<char>, p: Seq<char>) -> bool {
    p.len() <= s.len() && s.take(p.len() as int) == p
}

/// The format and the base64 payload of a data URL, or `None` for a text
/// that is no PNG or JPEG data URL.
pub open spec fn data_url_split(t: Seq<char>) -> Option<(ImageFormat, Seq<char>)> {
    if has_prefix(t, png_data_prefix()) {
        Some((ImageFormat::Png, t.skip(png_data_prefix().len() as int)))
    } else if has_prefix(t, jpeg_data_prefix()) {
        Some((ImageFormat::Jpeg, t.skip(jpeg_data_prefix().len() as int)))
    } else {
        None
    }
}

fn starts_with(text: &str, prefix: &str) -> (r: bool)
    ensures
        r == has_prefix(text@, prefix@),
{
    let n = text.unicode_len();
    let m = prefix.unicode_len();
    if m > n {
        return false;
    }
    let mut i: usize = 0;
    while i < m
        invariant
            i <= m <= n,
            n == text@.len(),
            m == prefix@.len(),
            forall|j: int| 0 <= j < i ==> text@[j] == prefix@[j],
        decreases m - i,
    {
        if text.get_char(i) != prefix.get_char(i) {
            assert(text@.take(m as int)[i as int] != prefix@[i as int]);
            return false;
        }
        i = i + 1;
    }
    assert(text@.take(m as int) =~= prefix@);
    true
}

/// The encoding of a concatenation is the concatenation of the encodings.
pub proof fn lemma_encode_utf8_concat(a: Seq<char>, b: Seq<char>)
    ensures
        encode_utf8(a + b) == encode_utf8(a) + encode_utf8(b),
    decreases a.len(),
{
    if a.len() == 0 {
        assert(a + b =~= b);
    } else {
        assert((a + b).drop_first() =~= a.drop_first() + b);
        lemma_encode_utf8_concat(a.drop_first(), b);
        assert(encode_utf8(a + b) =~= encode_utf8(a) + encode_utf8(b));
    }
}

/// Encoding a suffix of a text takes no more bytes than encoding the text.
pub proof fn lemma_encode_utf8_skip(t: Seq<char>, k: int)
    requires
        0 <= k <= t.len(),
    ensures
        encode_utf8(t.skip(k)).len() <= encode_utf8(t).len(),
{
    assert(t =~= t.take(k) + t.skip(k));
    lemma_encode_utf8_concat(t.take(k), t.skip(k));
}

/// No text starts with both the PNG and the JPEG data URL prefix.
pub proof fn lemma_data_prefixes_exclusive(t: Seq<char>)
    ensures
        !(has_prefix(t, png_data_prefix()) && has_prefix(t, jpeg_data_prefix())),
{
    reveal_strlit("data:image/png;base64,");
    reveal_strlit("data:image/jpeg;base64,");
    if has_prefix(t, png_data_prefix()) && has_prefix(t, jpeg_data_prefix()) {
        assert(t.take(png_data_prefix().len() as int)[11] == t[11]);
        assert(t.take(jpeg_data_prefix().len() as int)[11] == t[11]);
        assert(png_data_prefix()[11] == 'p');
        assert(jpeg_data_prefix()[11] == 'j');
    }
}

/// A text that starts with a data URL prefix is split there, whatever
/// follows: the format of the prefix and the rest of the text.
pub proof fn law_data_url_prefix_decides(t: Seq<char>)
    ensures
        has_prefix(t, png_data_prefix()) ==> data_url_split(t) == Some(
            (ImageFormat::Png, t.skip(png_data_prefix().len() as int)),
        ),
        has_prefix(t, jpeg_data_prefix()) ==> data_url_split(t) == Some(
            (ImageFormat::Jpeg, t.skip(jpeg_data_prefix().len() as int)),
        ),
        !has_prefix(t, png_data_prefix()) && !has_prefix(t, jpeg_data_prefix()) ==> data_url_split(
            t,
        ) is None,
{
    lemma_data_prefixes_exclusive(t);
}

/// Putting a data URL stores what its payload (the text after the prefix,
/// of any length) decodes to, and refuses it as not base64 when the payload
/// does not decode; it never downloads.
pub proof fn law_data_url_is_decoded(t: Seq<char>, r: Result<PutImageAction, ImageError>)
    requires
        has_prefix(t, png_data_prefix()) || has_prefix(t, jpeg_data_prefix()),
        put_text_outcome(t, r),
    ensures
        ({
            let payload = if has_prefix(t, png_data_prefix()) {
                t.skip(png_data_prefix().len() as int)
            } else {
                t.skip(jpeg_data_prefix().len() as int)
            };
            match base64_decoding(payload) {
                Some(bytes) => r matches Ok(PutImageAction::Upload(v)) && v@ == bytes,
                None => r == Err::<PutImageAction, ImageError>(
                    ImageError::TextNotBase64(TextNotBase64Error),
                ),
            }
        }),
{
    law_data_url_prefix_decides(t);
}

/// Putting file content stores exactly that content, whatever its length.
pub proof fn law_content_stored_unchanged(c: Seq<u8>, r: Result<PutImageAction, ImageError>)
    requires
        put_content_outcome(c, r),
    ensures
        r matches Ok(PutImageAction::Upload(v)) && v@ == c && v@.len() == c.len(),
{
}

impl ImageApi {
    /// Splits a PNG or JPEG data URL into its format and its base64 payload.
    pub fn is_image_base64(text: &str) -> (r: Option<(ImageFormat, &str)>)
        ensures
            match r {
                Some((format, payload)) => data_url_split(text@) == Some((format, payload@)),
                None => data_url_split(text@) is None,
            },
            r matches Some((format, payload)) ==> text@ == (match format {
                ImageFormat::Png => png_data_prefix(),
                ImageFormat::Jpeg => jpeg_data_prefix(),
            }) + payload@,
            has_prefix(text@, png_data_prefix()) ==> (r matches Some((format, payload))
                && format == ImageFormat::Png && payload@ == text@.skip(
                png_data_prefix().len() as int,
            )),
            has_prefix(text@, jpeg_data_prefix()) ==> (r matches Some((format, payload))
                && format == ImageFormat::Jpeg && payload@ == text@.skip(
                jpeg_data_prefix().len() as int,
            )),
            !has_prefix(text@, png_data_prefix()) && !has_prefix(text@, jpeg_data_prefix())
                ==> r is None,
    {
        proof {
            lemma_data_prefixes_exclusive(text@);
        }
        let png = "data:image/png;base64,";
        let jpeg = "data:image/jpeg;base64,";
        if starts_with(text, png) {
            let payload = text.substring_char(png.unicode_len(), text.unicode_len());
            assert(payload@ =~= text@.skip(png_data_prefix().len() as int));
            assert(text@ =~= png_data_prefix() + payload@);
            Some((ImageFormat::Png, payload))
        } else if starts_with(text, jpeg) {
            let payload = text.substring_char(jpeg.unicode_len(), text.unicode_len());
            assert(payload@ =~= text@.skip(jpeg_data_prefix().len() as int));
            assert(text@ =~= jpeg_data_prefix() + payload@);
            Some((ImageFormat::Jpeg, payload))
        } else {
            None
        }
    }
}

/// The text input fits the base64 decoder, whose length computation would
/// overflow on longer texts.
pub open spec fn put_image_input_fits(image: PutImageInput) -> bool {
    image matches PutImageInput::Text(t) ==> encode_utf8(t@).len() <= usize::MAX / 4
}

/// What putting file content gives: the content is stored as it is.
pub open spec fn put_content_outcome(c: Seq<u8>, r: Result<PutImageAction, ImageError>) -> bool {
    r matches Ok(PutImageAction::Upload(v)) && v@ == c
}

/// What putting a text gives: a PNG or JPEG data URL is stored as the bytes
/// that its payload decodes to; a URL is downloaded; any other text, and a
/// data URL whose payload does not decode, is refused as not base64.
pub open spec fn put_text_outcome(t: Seq<char>, r: Result<PutImageAction, ImageError>) -> bool {
    match data_url_split(t) {
        Some((_, payload)) => match base64_decoding(payload) {
            Some(bytes) => r matches Ok(PutImageAction::Upload(v)) && v@ == bytes,
            None => r == Err::<PutImageAction, ImageError>(ImageError::TextNotBase64(TextNotBase64Error)),
        },
        None => if url_parses(t) {
            r matches Ok(PutImageAction::Download(u)) && u@ == t
        } else {
            r == Err::<PutImageAction, ImageError>(ImageError::TextNotBase64(TextNotBase64Error))
        },
    }
}

impl ImageApi {
    /// Decides what an input asks for. File content is stored as it is. A
    /// text that is a PNG or JPEG data URL is stored as the bytes that its
    /// payload decodes to; a text that is a URL is downloaded; any other text,
    /// and a data URL whose payload does not decode, is refused as not base64.
    pub fn put_image(image: PutImageInput) -> (r: Result<PutImageAction, ImageError>)
        requires
            put_image_input_fits(image),
        ensures
            match image {
                PutImageInput::Content(c) => put_content_outcome(c@, r),
                PutImageInput::Text(t) => put_text_outcome(t@, r),
            },
            image matches PutImageInput::Content(c) ==> (r matches Ok(PutImageAction::Upload(v))
                && v@ == c@),
    {
        match image {
            PutImageInput::Content(content) => Ok(PutImageAction::Upload(content)),
            PutImageInput::Text(text) => {
                match Self::is_image_base64(text.as_str()) {
                    Some((_format, payload)) => {
                        proof {
                            let k = (text@.len() - payload@.len()) as int;
                            assert(payload@ =~= text@.skip(k));
                            lemma_encode_utf8_skip(text@, k);
                        }
                        match decode_base64(payload) {
                            Some(content) => Ok(PutImageAction::Upload(content)),
                            None => Err(ImageError::TextNotBase64(TextNotBase64Error)),
                        }
                    },
                    None => {
                        if parses_as_url(text.as_str()) {
                            Ok(PutImageAction::Download(text))
                        } else {
                            Err(ImageError::TextNotBase64(TextNotBase64Error))
                        }
                    },
                }
            },
        }
    }
}

/// The store of images: the index that the next stored image gets. Indices
/// start at 1 and every stored image takes the next one.
#[derive(Debug)]
pub struct ImageApi {
    last_image_index: usize,
}

impl ImageApi {
    /// Indices start at 1.
    #[verifier::type_invariant]
    spec fn indices_start_at_one(&self) -> bool {
        self.last_image_index >= 1
    }
}

/// The name of the file that holds the image with the given index.
pub open spec fn image_file_name(index: nat) -> Seq<char> {
    "Image_"@ + decimal(index) + ".png"@
}

/// The name of the file that holds the thumbnail of the image with the
/// given index.
pub open spec fn thumbnail_file_name(index: nat) -> Seq<char> {
    "Image_"@ + decimal(index) + "mini.png"@
}

/// Where a file of the given name is stored.
pub open spec fn stored_path(name: Seq<char>) -> Seq<char> {
    "files/"@ + name
}

/// The file that a request for the image called `name` reads.
pub open spec fn requested_image_path(name: Seq<char>) -> Seq<char> {
    "files/Image_"@ + name + ".png"@
}

/// The indices of the stored images when `next` is the index of the next
/// one: 1, 2, ..., next - 1.
pub open spec fn stored_indices(next: usize) -> Seq<usize> {
    Seq::new(if next >= 1 { (next - 1) as nat } else { 0 }, |i: int| (i + 1) as usize)
}

/// The width and height of an image in pixels.
#[derive(Debug, Clone, Copy, PartialEq, Eq, Structural)]
pub struct Size {
    pub width: i32,
    pub height: i32,
}

/// How a thumbnail is made: the image at `source` is scaled into a new image
/// of `size`, `depth` bits per channel and `channels` channels, which is
/// saved at `target`.
#[derive(Debug, PartialEq, Eq)]
pub struct ResizeJob {
    pub source: String,
    pub target: String,
    pub size: Size,
    pub depth: i32,
    pub channels: i32,
}

/// The step of making a thumbnail that failed.
#[derive(Debug, Clone, Copy, PartialEq, Eq, Structural)]
pub enum ResizeFailure {
    /// The source image could not be opened.
    Open,
    /// The thumbnail image could not be created.
    Create,
    /// The thumbnail could not be saved.
    Save,
}

/// The error reported when the step `failure` of making the thumbnail of
/// `source` into `target` fails.
pub open spec fn resize_error(source: Seq<char>, target: Seq<char>, failure: ResizeFailure, e: ImageError) -> bool {
    match failure {
        ResizeFailure::Open => e matches ImageError::CanNotOpenImage(o) && o.path_spec()@ == source,
        ResizeFailure::Create => e == ImageError::CanNotCreateImage(CanNotCreateImage),
        ResizeFailure::Save => e matches ImageError::CanNotSaveImage(o) && o.path_spec()@ == target,
    }
}

impl ResizeJob {
    /// The error reported when the step `failure` of this job fails.
    pub fn failure(&self, failure: ResizeFailure) -> (e: ImageError)
        ensures
            resize_error(self.source@, self.target@, failure, e),
    {
        match failure {
            ResizeFailure::Open => ImageError::CanNotOpenImage(CanNotOpenImage::new(self.source.clone())),
            ResizeFailure::Create => ImageError::CanNotCreateImage(CanNotCreateImage),
            ResizeFailure::Save => ImageError::CanNotSaveImage(CanNotSaveImage::new(self.target.clone())),
        }
    }
}

/// An accepted upload: the index that it took, the names and places of its
/// file and its thumbnail, and its content.
#[derive(Debug, PartialEq, Eq)]
pub struct UploadJob {
    pub index: usize,
    pub file_name: String,
    pub file_path: String,
    pub mini_name: String,
    pub mini_path: String,
    pub content: Vec<u8>,
}

impl UploadJob {
    /// The names and places are those of the job's index.
    pub open spec fn names_match_index(&self) -> bool {
        &&& self.file_name@ == image_file_name(self.index as nat)
        &&& self.file_path@ == stored_path(image_file_name(self.index as nat))
        &&& self.mini_name@ == thumbnail_file_name(self.index as nat)
        &&& self.mini_path@ == stored_path(thumbnail_file_name(self.index as nat))
    }

    /// The answer given once the image and its thumbnail are stored.
    pub open spec fn reply(&self) -> Seq<char> {
        "Image has been saved as "@ + self.file_name@ + " and "@ + self.mini_name@
    }
}

/// What happened to the last step of storing an upload.
#[derive(Debug, PartialEq, Eq)]
pub enum UploadEvent {
    /// The image file could not be created; the system's account of why.
    FileNotCreated(String),
    /// The content could not be written; the system's account of why.
    FileNotWritten(String),
    /// The content is in the image file.
    FileWritten,
    /// A step of making the thumbnail failed.
    ThumbnailFailed(ResizeFailure),
    /// The thumbnail is saved.
    ThumbnailSaved,
}

/// What is to be done next for an upload. Storing begins by writing the
/// content to the job's file.
#[derive(Debug, PartialEq, Eq)]
pub enum UploadAction {
    MakeThumbnail(ResizeJob),
    Reply(String),
    Fail(ImageError),
}

/// The thumbnail job for an image file and its thumbnail file: a 200 by 200
/// image with 8 bits per channel and 3 channels.
pub open spec fn thumbnail_job(job: ResizeJob, source: Seq<char>, target: Seq<char>) -> bool {
    &&& job.source@ == source
    &&& job.target@ == target
    &&& job.size == Size { width: 200, height: 200 }
    &&& job.depth == 8
    &&& job.channels == 3
}

impl UploadJob {
    /// Decides the next step of storing this upload from what the last step
    /// gave.
    pub fn step(&self, event: UploadEvent) -> (a: UploadAction)
        ensures
            match event {
                UploadEvent::FileNotCreated(why) => a matches UploadAction::Fail(
                    ImageError::CanNotCreateImageFile(e),
                ) && e.path@ == self.file_path@ && e.error == why,
                UploadEvent::FileNotWritten(why) => a matches UploadAction::Fail(
                    ImageError::CanNotWriteImageFile(e),
                ) && e.path@ == self.file_path@ && e.error == why,
                UploadEvent::FileWritten => a matches UploadAction::MakeThumbnail(job)
                    && thumbnail_job(job, self.file_path@, self.mini_path@),
                UploadEvent::ThumbnailFailed(f) => a matches UploadAction::Fail(e) && resize_error(
                    self.file_path@,
                    self.mini_path@,
                    f,
                    e,
                ),
                UploadEvent::ThumbnailSaved => a matches UploadAction::Reply(m) && m@ == self.reply(),
            },
    {
        match event {
            UploadEvent::FileNotCreated(why) => UploadAction::Fail(
                ImageError::CanNotCreateImageFile(
                    CanNotCreateImageFileError { path: self.file_path.clone(), error: why },
                ),
            ),
            UploadEvent::FileNotWritten(why) => UploadAction::Fail(
                ImageError::CanNotWriteImageFile(
                    CanNotWriteImageFileError { path: self.file_path.clone(), error: why },
                ),
            ),
            UploadEvent::FileWritten => UploadAction::MakeThumbnail(
                ImageApi::resize_image(self.file_path.as_str(), self.mini_path.as_str()),
            ),
            UploadEvent::ThumbnailFailed(f) => {
                let job = ImageApi::resize_image(self.file_path.as_str(), self.mini_path.as_str());
                UploadAction::Fail(job.failure(f))
            },
            UploadEvent::ThumbnailSaved => {
                let mut m = String::from_str("Image has been saved as ");
                m.append(self.file_name.as_str());
                m.append(" and ");
                m.append(self.mini_name.as_str());
                UploadAction::Reply(m)
            },
        }
    }
}

fn stored_name(prefix: &str, index: usize, suffix: &str) -> (s: String)
    ensures
        s@ == prefix@ + decimal(index as nat) + suffix@,
{
    let mut s = String::from_str(prefix);
    push_decimal(&mut s, index);
    s.append(suffix);
    s
}

impl ImageApi {
    /// A store with no images: the first image gets index 1.
    pub fn new() -> (api: Self)
        ensures
            api.next_index() == 1,
    {
        ImageApi { last_image_index: 1 }
    }

    /// The index that the next stored image gets.
    pub closed spec fn next_index(&self) -> usize {
        self.last_image_index
    }

    /// The index that the next stored image gets.
    pub fn last_image_index(&self) -> (i: usize)
        ensures
            i == self.next_index(),
            i >= 1,
    {
        proof {
            use_type_invariant(self);
        }
        self.last_image_index
    }

    /// Accepts content for storing: it takes the next index, and its file and
    /// thumbnail are named after that index.
    pub fn upload_image(&mut self, content: Vec<u8>) -> (job: UploadJob)
        requires
            old(self).next_index() < usize::MAX,
        ensures
            final(self).next_index() == old(self).next_index() + 1,
            job.index == old(self).next_index(),
            job.index >= 1,
            job.names_match_index(),
            job.content@ == content@,
    {
        proof {
            use_type_invariant(&*self);
        }
        let index = self.last_image_index;
        self.last_image_index = index + 1;
        let file_name = stored_name("Image_", index, ".png");
        let mut file_path = String::from_str("files/");
        file_path.append(file_name.as_str());
        let mini_name = stored_name("Image_", index, "mini.png");
        let mut mini_path = String::from_str("files/");
        mini_path.append(mini_name.as_str());
        UploadJob { index, file_name, file_path, mini_name, mini_path, content }
    }

    /// How the thumbnail of the image at `file_path` is made and saved at
    /// `file_mini_path`.
    pub fn resize_image(file_path: &str, file_mini_path: &str) -> (job: ResizeJob)
        ensures
            thumbnail_job(job, file_path@, file_mini_path@),
    {
        ResizeJob {
            source: String::from_str(file_path),
            target: String::from_str(file_mini_path),
            size: Size { width: 200, height: 200 },
            depth: 8,
            channels: 3,
        }
    }

    /// The indices of the stored images, in increasing order.
    pub fn get_images_list(&self) -> (list: Vec<usize>)
        ensures
            list@ == stored_indices(self.next_index()),
    {
        let last = self.last_image_index;
        let mut list: Vec<usize> = Vec::new();
        let mut i: usize = 1;
        while i < last
            invariant
                1 <= i,
                i <= last || i == 1,
                list@ =~= stored_indices(i),
            decreases last - i,
        {
            list.push(i);
            i = i + 1;
        }
        if last == 0 {
            assert(stored_indices(1) =~= stored_indices(0));
        }
        assert(list@ =~= stored_indices(last));
        list
    }

    /// The file that a request for the image called `name` reads.
    pub fn image_path(name: &str) -> (path: String)
        ensures
            path@ == requested_image_path(name@),
    {
        let mut path = String::from_str("files/Image_");
        path.append(name);
        path.append(".png");
        path
    }
}


/// The name of the content type header (header names are lowercase).
pub open spec fn content_type_header() -> Seq<u8> {
    encode_utf8("content-type"@)
}

/// The name of the content length header.
pub open spec fn content_length_header() -> Seq<u8> {
    encode_utf8("content-length"@)
}

/// The content type of PNG images.
pub open spec fn png_mime() -> Seq<u8> {
    encode_utf8("image/png"@)
}

/// The content type of JPEG images.
pub open spec fn jpeg_mime() -> Seq<u8> {
    encode_utf8("image/jpeg"@)
}

/// Why the headers of a download were refused.
#[derive(Debug, Clone, Copy, PartialEq, Eq, Structural)]
pub enum HeaderFault {
    /// The content type is neither PNG nor JPEG.
    Unsupported,
    /// The content length is not UTF-8.
    NotUtf8,
    /// The content length is not a number.
    NotNumber,
}

/// The body limit once a valid content length has been announced. The value
/// announced is not used: any valid one sets this limit.
pub open spec fn announced_body_limit() -> usize {
    1000000
}

/// One header read into the format and body limit found so far, or the fault
/// with the offending value.
pub open spec fn header_step(
    format: Option<ImageFormat>,
    limit: usize,
    name: Seq<u8>,
    value: Seq<u8>,
) -> Result<(Option<ImageFormat>, usize), (HeaderFault, Seq<u8>)> {
    if name == content_type_header() {
        if value == png_mime() {
            Ok((Some(ImageFormat::Png), limit))
        } else if value == jpeg_mime() {
            Ok((Some(ImageFormat::Jpeg), limit))
        } else {
            Err((HeaderFault::Unsupported, value))
        }
    } else if name == content_length_header() {
        if !valid_utf8(value) {
            Err((HeaderFault::NotUtf8, value))
        } else if parsed_usize(value) is Some {
            Ok((format, announced_body_limit()))
        } else {
            Err((HeaderFault::NotNumber, value))
        }
    } else {
        Ok((format, limit))
    }
}

/// The headers read in order, from no format and a body limit of 0; the
/// first fault stops the reading.
pub open spec fn scan_headers(hs: Seq<(Seq<u8>, Seq<u8>)>) -> Result<
    (Option<ImageFormat>, usize),
    (HeaderFault, Seq<u8>),
>
    decreases hs.len(),
{
    if hs.len() == 0 {
        Ok((None, 0))
    } else {
        match scan_headers(hs.drop_last()) {
            Ok((format, limit)) => header_step(format, limit, hs.last().0, hs.last().1),
            Err(fault) => Err(fault),
        }
    }
}

/// The headers as byte sequences.
pub open spec fn header_views(hs: Seq<(Vec<u8>, Vec<u8>)>) -> Seq<(Seq<u8>, Seq<u8>)> {
    hs.map_values(|h: (Vec<u8>, Vec<u8>)| (h.0@, h.1@))
}

/// The decision on the response to a download request for `url`: a status
/// that is no success is refused with the URL and the status; otherwise the
/// reading of the headers decides.
pub open spec fn download_outcome(
    url: String,
    response: DownloadResponse,
    r: Result<DownloadPlan, ImageError>,
) -> bool {
    &&& !response.success ==> (r matches Err(ImageError::CanNodDownloadByURL(e)) && e.url == url
        && e.error == response.status)
    &&& response.success ==> match scan_headers(header_views(response.headers@)) {
        Ok((Some(format), limit)) => r == Ok::<DownloadPlan, ImageError>(
            DownloadPlan { format, body_limit: limit },
        ),
        Ok((None, _)) => r == Err::<DownloadPlan, ImageError>(
            ImageError::UnsupportedImageFormat(UnsupportedImageFormatError),
        ),
        Err((HeaderFault::Unsupported, _)) => r == Err::<DownloadPlan, ImageError>(
            ImageError::UnsupportedImageFormat(UnsupportedImageFormatError),
        ),
        Err((HeaderFault::NotUtf8, _)) => r == Err::<DownloadPlan, ImageError>(
            ImageError::TextNotUTF8(TextNotUTF8Error),
        ),
        Err((HeaderFault::NotNumber, value)) => r matches Err(ImageError::CanNotParseAsNumber(e))
            && e.string@ == decode_utf8(value),
    }
}

/// What came back for a download request: whether the status is a success,
/// the status as text, and the headers as (lowercase name, value) pairs in
/// the order given.
#[derive(Debug, PartialEq, Eq)]
pub struct DownloadResponse {
    pub success: bool,
    pub status: String,
    pub headers: Vec<(Vec<u8>, Vec<u8>)>,
}

/// How the body of an accepted download is read: its format and the most
/// bytes that are read.
#[derive(Debug, Clone, Copy, PartialEq, Eq, Structural)]
pub struct DownloadPlan {
    pub format: ImageFormat,
    pub body_limit: usize,
}

fn bytes_equal(a: &[u8], b: &[u8]) -> (r: bool)
    ensures
        r == (a@ == b@),
{
    if a.len() != b.len() {
        return false;
    }
    let mut i: usize = 0;
    while i < a.len()
        invariant
            i <= a@.len(),
            a@.len() == b@.len(),
            forall|j: int| 0 <= j < i ==> a@[j] == b@[j],
        decreases a@.len() - i,
    {
        if a[i] != b[i] {
            return false;
        }
        i = i + 1;
    }
    assert(a@ =~= b@);
    true
}

impl ImageApi {
    /// Decides on the response to a download request for `url`. A status
    /// that is no success is refused with the URL and the status. Otherwise
    /// the headers are read in order: a content type must be PNG or JPEG, a
    /// content length must be a UTF-8 number; the body is read only when a
    /// format was found.
    pub fn download_image(url: String, response: DownloadResponse) -> (r: Result<DownloadPlan, ImageError>)
        ensures
            download_outcome(url, response, r),
    {
        if !response.success {
            return Err(
                ImageError::CanNodDownloadByURL(
                    CanNodDownloadByURLError { url, error: response.status },
                ),
            );
        }
        let headers = &response.headers;
        let ghost hs = header_views(headers@);
        let mut format: Option<ImageFormat> = None;
        let mut limit: usize = 0;
        let mut i: usize = 0;
        while i < headers.len()
            invariant
                i <= headers@.len(),
                response.success,
                headers@ == response.headers@,
                hs == header_views(headers@),
                hs.len() == headers@.len(),
                scan_headers(hs.take(i as int)) == Ok::<(Option<ImageFormat>, usize), (HeaderFault, Seq<u8>)>((format, limit)),
            decreases headers@.len() - i,
        {
            let ghost prefix = hs.take(i as int + 1);
            assert(prefix.drop_last() =~= hs.take(i as int));
            assert(prefix.last() == (headers@[i as int].0@, headers@[i as int].1@));
            let name = headers[i].0.as_slice();
            let value = headers[i].1.as_slice();
            if bytes_equal(name, "content-type".as_bytes()) {
                if bytes_equal(value, "image/png".as_bytes()) {
                    format = Some(ImageFormat::Png);
                } else if bytes_equal(value, "image/jpeg".as_bytes()) {
                    format = Some(ImageFormat::Jpeg);
                } else {
                    proof { lemma_scan_stops(hs, i as int + 1); }
                    return Err(ImageError::UnsupportedImageFormat(UnsupportedImageFormatError));
                }
            } else if bytes_equal(name, "content-length".as_bytes()) {
                match utf8_str(value) {
                    Some(number) => {
                        match parse_usize(value) {
                            Some(_) => {
                                limit = 1000000;
                            },
                            None => {
                                proof { lemma_scan_stops(hs, i as int + 1); }
                                return Err(
                                    ImageError::CanNotParseAsNumber(
                                        CanNotParseAsNumberError { string: String::from_str(number) },
                                    ),
                                );
                            },
                        }
                    },
                    None => {
                        proof { lemma_scan_stops(hs, i as int + 1); }
                        return Err(ImageError::TextNotUTF8(TextNotUTF8Error));
                    },
                }
            }
            i = i + 1;
        }
        assert(hs.take(headers@.len() as int) =~= hs);
        match format {
            Some(format) => Ok(DownloadPlan { format, body_limit: limit }),
            None => Err(ImageError::UnsupportedImageFormat(UnsupportedImageFormatError)),
        }
    }
}

/// What happened to the last step of a download.
#[derive(Debug, PartialEq, Eq)]
pub enum DownloadEvent {
    /// The request could not be made; the client's account of why.
    RequestFailed(String),
    /// The response arrived.
    Responded(DownloadResponse),
    /// The body was read.
    BodyRead(Vec<u8>),
    /// The body could not be read.
    BodyFailed,
}

/// What is to be done next for a download.
#[derive(Debug, PartialEq, Eq)]
pub enum DownloadAction {
    /// Read the body as the plan says.
    ReadBody(DownloadPlan),
    /// Store the downloaded bytes as a new image.
    Upload(Vec<u8>),
    /// Give up with this error.
    Fail(ImageError),
}

impl ImageApi {
    /// Decides the next step of downloading the image at `url` from what the
    /// last step gave.
    pub fn download_step(url: String, event: DownloadEvent) -> (a: DownloadAction)
        ensures
            match event {
                DownloadEvent::RequestFailed(why) => a matches DownloadAction::Fail(
                    ImageError::CanNodDownloadByURL(e),
                ) && e.url == url && e.error == why,
                DownloadEvent::Responded(response) => match a {
                    DownloadAction::ReadBody(plan) => download_outcome(url, response, Ok(plan)),
                    DownloadAction::Fail(e) => download_outcome(url, response, Err(e)),
                    DownloadAction::Upload(_) => false,
                },
                DownloadEvent::BodyRead(bytes) => a matches DownloadAction::Upload(v) && v@
                    == bytes@,
                DownloadEvent::BodyFailed => a matches DownloadAction::Fail(ImageError::Message(m))
                    && m@ == "can not read body"@,
            },
    {
        match event {
            DownloadEvent::RequestFailed(why) => DownloadAction::Fail(
                ImageError::CanNodDownloadByURL(CanNodDownloadByURLError::from((url, why))),
            ),
            DownloadEvent::Responded(response) => match ImageApi::download_image(url, response) {
                Ok(plan) => DownloadAction::ReadBody(plan),
                Err(e) => DownloadAction::Fail(e),
            },
            DownloadEvent::BodyRead(bytes) => DownloadAction::Upload(bytes),
            DownloadEvent::BodyFailed => DownloadAction::Fail(
                ImageError::Message(String::from_str("can not read body")),
            ),
        }
    }
}

/// An uploaded image is served back: a request for the image named by the
/// decimal index of an upload reads the file where the upload was stored, and
/// a request for that name followed by `mini` reads its thumbnail.
pub proof fn law_uploaded_image_is_served(index: usize)
    ensures
        requested_image_path(decimal(index as nat)) == stored_path(image_file_name(index as nat)),
        requested_image_path(decimal(index as nat) + "mini"@) == stored_path(
            thumbnail_file_name(index as nat),
        ),
{
    reveal_strlit("files/Image_");
    reveal_strlit("files/");
    reveal_strlit("Image_");
    reveal_strlit(".png");
    reveal_strlit("mini");
    reveal_strlit("mini.png");
    let d = decimal(index as nat);
    assert(requested_image_path(d) =~= stored_path(image_file_name(index as nat)));
    assert(requested_image_path(d + "mini"@) =~= stored_path(thumbnail_file_name(index as nat)));
}

/// Stored files never collide: images with different indices have different
/// file names, so do their thumbnails, and no image file is named like a
/// thumbnail.
pub proof fn law_stored_files_distinct(i: nat, j: nat)
    ensures
        i != j ==> image_file_name(i) != image_file_name(j),
        i != j ==> thumbnail_file_name(i) != thumbnail_file_name(j),
        image_file_name(i) != thumbnail_file_name(j),
{
    reveal_strlit("Image_");
    reveal_strlit(".png");
    reveal_strlit("mini.png");
    lemma_decimal_reads_back(i);
    lemma_decimal_reads_back(j);
    let di = decimal(i);
    let dj = decimal(j);
    assert("Image_"@.len() == 6);
    assert(".png"@.len() == 4);
    assert("mini.png"@.len() == 8);
    if image_file_name(i) == image_file_name(j) {
        assert(image_file_name(i).len() == 10 + di.len());
        assert(image_file_name(j).len() == 10 + dj.len());
        assert(image_file_name(i).subrange(6, 6 + di.len() as int) =~= di);
        assert(image_file_name(j).subrange(6, 6 + dj.len() as int) =~= dj);
        assert(di =~= dj);
    }
    if thumbnail_file_name(i) == thumbnail_file_name(j) {
        assert(thumbnail_file_name(i).len() == 14 + di.len());
        assert(thumbnail_file_name(j).len() == 14 + dj.len());
        assert(thumbnail_file_name(i).subrange(6, 6 + di.len() as int) =~= di);
        assert(thumbnail_file_name(j).subrange(6, 6 + dj.len() as int) =~= dj);
        assert(di =~= dj);
    }
    if image_file_name(i) == thumbnail_file_name(j) {
        let k: int = 6 + dj.len() as int;
        assert(image_file_name(i).len() == 10 + di.len());
        assert(thumbnail_file_name(j).len() == 14 + dj.len());
        assert(di.len() == dj.len() + 4);
        assert(thumbnail_file_name(j)[k] == "mini.png"@[0]);
        assert("mini.png"@[0] == 'm');
        assert(image_file_name(i)[k] == di[dj.len() as int]);
        assert('0' <= di[dj.len() as int] <= '9');
    }
}

/// An upload adds exactly its own index to the list of stored images, at
/// the end, and that index was not listed before.
pub proof fn law_upload_adds_its_index(before: ImageApi, after: ImageApi, index: usize)
    requires
        before.next_index() >= 1,
        index == before.next_index(),
        after.next_index() == before.next_index() + 1,
    ensures
        stored_indices(after.next_index()) == stored_indices(before.next_index()).push(index),
        !stored_indices(before.next_index()).contains(index),
{
    assert(stored_indices(after.next_index()) =~= stored_indices(before.next_index()).push(index));
}

/// The stored images are listed in increasing order of index, so no index
/// is listed twice.
pub proof fn law_stored_indices_increase(next: usize)
    ensures
        forall|i: int, j: int|
            0 <= i < j < stored_indices(next).len() ==> stored_indices(next)[i] < stored_indices(
                next,
            )[j],
{
}

/// The body of a download is read with a limit of 0 when no valid length is
/// announced, and of `announced_body_limit()` when one is.
pub proof fn law_body_limit(hs: Seq<(Seq<u8>, Seq<u8>)>)
    ensures
        scan_headers(hs) matches Ok((_, limit)) ==> limit == 0 || limit == announced_body_limit(),
    decreases hs.len(),
{
    if hs.len() > 0 {
        law_body_limit(hs.drop_last());
    }
}

/// A content length that is UTF-8 and that `str::parse::<usize>` accepts,
/// of any size, never stops the reading of the headers: it keeps the format
/// found so far and sets the body limit to 1000000.
pub proof fn law_valid_length_keeps_reading(hs: Seq<(Seq<u8>, Seq<u8>)>, v: Seq<u8>)
    requires
        valid_utf8(v),
        parsed_usize(v) is Some,
    ensures
        scan_headers(hs.push((content_length_header(), v))) == match scan_headers(hs) {
            Ok((format, _)) => Ok((format, 1000000usize)),
            Err(fault) => Err::<(Option<ImageFormat>, usize), (HeaderFault, Seq<u8>)>(fault),
        },
{
    reveal_strlit("content-type");
    reveal_strlit("content-length");
    assert(hs.push((content_length_header(), v)).drop_last() =~= hs);
    assert(content_length_header().len() != content_type_header().len()) by {
        vstd::utf8::is_ascii_chars_encode_utf8("content-type"@);
        vstd::utf8::is_ascii_chars_encode_utf8("content-length"@);
    }
}

/// A PNG or JPEG content type sets the format and keeps the body limit.
pub proof fn law_image_type_sets_format(hs: Seq<(Seq<u8>, Seq<u8>)>)
    ensures
        scan_headers(hs.push((content_type_header(), png_mime()))) == match scan_headers(hs) {
            Ok((_, limit)) => Ok((Some(ImageFormat::Png), limit)),
            Err(fault) => Err::<(Option<ImageFormat>, usize), (HeaderFault, Seq<u8>)>(fault),
        },
        scan_headers(hs.push((content_type_header(), jpeg_mime()))) == match scan_headers(hs) {
            Ok((_, limit)) => Ok((Some(ImageFormat::Jpeg), limit)),
            Err(fault) => Err::<(Option<ImageFormat>, usize), (HeaderFault, Seq<u8>)>(fault),
        },
{
    reveal_strlit("image/png");
    reveal_strlit("image/jpeg");
    assert(hs.push((content_type_header(), png_mime())).drop_last() =~= hs);
    assert(hs.push((content_type_header(), jpeg_mime())).drop_last() =~= hs);
    assert(png_mime().len() != jpeg_mime().len()) by {
        vstd::utf8::is_ascii_chars_encode_utf8("image/png"@);
        vstd::utf8::is_ascii_chars_encode_utf8("image/jpeg"@);
    }
}

/// A successful response announcing a PNG and any length that parses is
/// read as a PNG with a body limit of 1000000.
pub proof fn law_png_with_length_is_read(
    url: String,
    response: DownloadResponse,
    r: Result<DownloadPlan, ImageError>,
    v: Seq<u8>,
)
    requires
        response.success,
        header_views(response.headers@) == seq![
            (content_type_header(), png_mime()),
            (content_length_header(), v),
        ],
        valid_utf8(v),
        parsed_usize(v) is Some,
        download_outcome(url, response, r),
    ensures
        r == Ok::<DownloadPlan, ImageError>(
            DownloadPlan { format: ImageFormat::Png, body_limit: 1000000 },
        ),
{
    let empty = Seq::<(Seq<u8>, Seq<u8>)>::empty();
    law_image_type_sets_format(empty);
    let one = empty.push((content_type_header(), png_mime()));
    law_valid_length_keeps_reading(one, v);
    assert(one.push((content_length_header(), v)) =~= header_views(response.headers@));
}

/// Once the reading of the first `k` headers stops at a fault, reading all of
/// them stops at the same fault.
proof fn lemma_scan_stops(hs: Seq<(Seq<u8>, Seq<u8>)>, k: int)
    requires
        0 <= k <= hs.len(),
        scan_headers(hs.take(k)) is Err,
    ensures
        scan_headers(hs) == scan_headers(hs.take(k)),
    decreases hs.len() - k,
{
    if k == hs.len() {
        assert(hs.take(k) =~= hs);
    } else {
        let next = hs.take(k + 1);
        assert(next.drop_last() =~= hs.take(k));
        lemma_scan_stops(hs, k + 1);
    }
}

} // verus!
