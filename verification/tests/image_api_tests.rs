use image_api::errors::{
    CanNodDownloadByURLError, CanNotCreateImage, CanNotCreateImageFileError, CanNotOpenImage,
    CanNotParseAsNumberError, CanNotSaveImage, CanNotWriteImageFileError, ImageError,
    TextNotBase64Error, TextNotUTF8Error, UnsupportedImageFormatError,
};
use image_api::image_api::{
    DownloadAction, DownloadEvent, DownloadPlan, DownloadResponse, ImageApi, ImageFormat,
    PutImageAction, PutImageInput, ResizeFailure, ResizeJob, Size, UploadAction, UploadEvent,
};

#[test]
fn data_urls_are_split() {
    assert_eq!(
        ImageApi::is_image_base64("data:image/png;base64,aGVsbG8="),
        Some((ImageFormat::Png, "aGVsbG8="))
    );
    assert_eq!(
        ImageApi::is_image_base64("data:image/jpeg;base64,AAAA"),
        Some((ImageFormat::Jpeg, "AAAA"))
    );
    assert_eq!(ImageApi::is_image_base64("data:image/png;base64,"), Some((ImageFormat::Png, "")));
    assert_eq!(ImageApi::is_image_base64("data:image/gif;base64,AAAA"), None);
    assert_eq!(ImageApi::is_image_base64("data:image/png"), None);
    assert_eq!(ImageApi::is_image_base64("http://example.com/a.png"), None);
    assert_eq!(ImageApi::is_image_base64(""), None);
}

#[test]
fn content_is_uploaded_as_given() {
    let r = ImageApi::put_image(PutImageInput::Content(vec![1, 2, 3]));
    assert_eq!(r, Ok(PutImageAction::Upload(vec![1, 2, 3])));
}

#[test]
fn data_url_payload_is_decoded() {
    let r = ImageApi::put_image(PutImageInput::Text("data:image/png;base64,aGVsbG8=".to_string()));
    assert_eq!(r, Ok(PutImageAction::Upload(b"hello".to_vec())));
    let r = ImageApi::put_image(PutImageInput::Text("data:image/jpeg;base64,AQID".to_string()));
    assert_eq!(r, Ok(PutImageAction::Upload(vec![1, 2, 3])));
}

#[test]
fn bad_base64_is_refused() {
    let r = ImageApi::put_image(PutImageInput::Text("data:image/png;base64,!!!!".to_string()));
    assert_eq!(r, Err(ImageError::TextNotBase64(TextNotBase64Error)));
}

#[test]
fn urls_are_downloaded() {
    let r = ImageApi::put_image(PutImageInput::Text("http://example.com/a.png".to_string()));
    assert_eq!(r, Ok(PutImageAction::Download("http://example.com/a.png".to_string())));
}

#[test]
fn other_text_is_refused_as_not_base64() {
    let r = ImageApi::put_image(PutImageInput::Text("just some words".to_string()));
    assert_eq!(r, Err(ImageError::TextNotBase64(TextNotBase64Error)));
    let r = ImageApi::put_image(PutImageInput::Text("".to_string()));
    assert_eq!(r, Err(ImageError::TextNotBase64(TextNotBase64Error)));
}

#[test]
fn a_new_store_lists_nothing() {
    let api = ImageApi::new();
    assert_eq!(api.last_image_index(), 1);
    assert_eq!(api.get_images_list(), Vec::<usize>::new());
}

#[test]
fn uploads_take_consecutive_indices() {
    let mut api = ImageApi::new();
    let first = api.upload_image(vec![9]);
    assert_eq!(first.index, 1);
    assert_eq!(first.file_name, "Image_1.png");
    assert_eq!(first.file_path, "files/Image_1.png");
    assert_eq!(first.mini_name, "Image_1mini.png");
    assert_eq!(first.mini_path, "files/Image_1mini.png");
    assert_eq!(first.content, vec![9]);
    let second = api.upload_image(vec![]);
    assert_eq!(second.index, 2);
    assert_eq!(second.file_path, "files/Image_2.png");
    assert_eq!(api.last_image_index(), 3);
    assert_eq!(api.get_images_list(), vec![1, 2]);
}

#[test]
fn uploaded_image_is_served_back() {
    let mut api = ImageApi::new();
    for _ in 0..11 {
        api.upload_image(vec![]);
    }
    let job = api.upload_image(vec![1]);
    assert_eq!(job.index, 12);
    assert_eq!(ImageApi::image_path("12"), job.file_path);
    assert_eq!(ImageApi::image_path("12mini"), job.mini_path);
}

#[test]
fn thumbnails_are_200_by_200() {
    let job = ImageApi::resize_image("files/Image_1.png", "files/Image_1mini.png");
    assert_eq!(
        job,
        ResizeJob {
            source: "files/Image_1.png".to_string(),
            target: "files/Image_1mini.png".to_string(),
            size: Size { width: 200, height: 200 },
            depth: 8,
            channels: 3,
        }
    );
    assert_eq!(
        job.failure(ResizeFailure::Open),
        ImageError::CanNotOpenImage(CanNotOpenImage::new("files/Image_1.png".to_string()))
    );
    assert_eq!(job.failure(ResizeFailure::Create), ImageError::CanNotCreateImage(CanNotCreateImage));
    assert_eq!(
        job.failure(ResizeFailure::Save),
        ImageError::CanNotSaveImage(CanNotSaveImage::new("files/Image_1mini.png".to_string()))
    );
}

#[test]
fn upload_steps() {
    let mut api = ImageApi::new();
    let job = api.upload_image(vec![5]);
    assert_eq!(
        job.step(UploadEvent::FileNotCreated("denied".to_string())),
        UploadAction::Fail(ImageError::CanNotCreateImageFile(CanNotCreateImageFileError {
            path: "files/Image_1.png".to_string(),
            error: "denied".to_string(),
        }))
    );
    assert_eq!(
        job.step(UploadEvent::FileNotWritten("full".to_string())),
        UploadAction::Fail(ImageError::CanNotWriteImageFile(CanNotWriteImageFileError {
            path: "files/Image_1.png".to_string(),
            error: "full".to_string(),
        }))
    );
    assert_eq!(
        job.step(UploadEvent::FileWritten),
        UploadAction::MakeThumbnail(ImageApi::resize_image("files/Image_1.png", "files/Image_1mini.png"))
    );
    assert_eq!(
        job.step(UploadEvent::ThumbnailFailed(ResizeFailure::Save)),
        UploadAction::Fail(ImageError::CanNotSaveImage(CanNotSaveImage::new(
            "files/Image_1mini.png".to_string()
        )))
    );
    assert_eq!(
        job.step(UploadEvent::ThumbnailSaved),
        UploadAction::Reply("Image has been saved as Image_1.png and Image_1mini.png".to_string())
    );
}

fn response(success: bool, headers: &[(&str, &[u8])]) -> DownloadResponse {
    DownloadResponse {
        success,
        status: if success { "200 OK".to_string() } else { "404 Not Found".to_string() },
        headers: headers.iter().map(|(n, v)| (n.as_bytes().to_vec(), v.to_vec())).collect(),
    }
}

#[test]
fn failed_status_is_refused_with_url_and_status() {
    let r = ImageApi::download_image("http://x/a".to_string(), response(false, &[("content-type", b"image/png")]));
    assert_eq!(
        r,
        Err(ImageError::CanNodDownloadByURL(CanNodDownloadByURLError {
            url: "http://x/a".to_string(),
            error: "404 Not Found".to_string(),
        }))
    );
}

#[test]
fn png_and_jpeg_are_accepted() {
    let r = ImageApi::download_image("u".to_string(), response(true, &[("content-type", b"image/png")]));
    assert_eq!(r, Ok(DownloadPlan { format: ImageFormat::Png, body_limit: 0 }));
    let r = ImageApi::download_image(
        "u".to_string(),
        response(true, &[("server", b"x"), ("content-type", b"image/jpeg"), ("content-length", b"123")]),
    );
    assert_eq!(r, Ok(DownloadPlan { format: ImageFormat::Jpeg, body_limit: 1000000 }));
    let r = ImageApi::download_image(
        "u".to_string(),
        response(true, &[("content-length", b"5"), ("content-type", b"image/png")]),
    );
    assert_eq!(r, Ok(DownloadPlan { format: ImageFormat::Png, body_limit: 1000000 }));
}

#[test]
fn other_or_missing_types_are_refused() {
    let r = ImageApi::download_image("u".to_string(), response(true, &[("content-type", b"image/gif")]));
    assert_eq!(r, Err(ImageError::UnsupportedImageFormat(UnsupportedImageFormatError)));
    let r = ImageApi::download_image("u".to_string(), response(true, &[("content-length", b"10")]));
    assert_eq!(r, Err(ImageError::UnsupportedImageFormat(UnsupportedImageFormatError)));
    let r = ImageApi::download_image("u".to_string(), response(true, &[]));
    assert_eq!(r, Err(ImageError::UnsupportedImageFormat(UnsupportedImageFormatError)));
    let r = ImageApi::download_image(
        "u".to_string(),
        response(true, &[("content-type", b"image/png"), ("content-type", b"text/html")]),
    );
    assert_eq!(r, Err(ImageError::UnsupportedImageFormat(UnsupportedImageFormatError)));
}

#[test]
fn bad_content_lengths_are_refused() {
    let r = ImageApi::download_image(
        "u".to_string(),
        response(true, &[("content-type", b"image/png"), ("content-length", b"ten")]),
    );
    assert_eq!(
        r,
        Err(ImageError::CanNotParseAsNumber(CanNotParseAsNumberError { string: "ten".to_string() }))
    );
    let r = ImageApi::download_image(
        "u".to_string(),
        response(true, &[("content-length", &[0xff, 0x31]), ("content-type", b"image/png")]),
    );
    assert_eq!(r, Err(ImageError::TextNotUTF8(TextNotUTF8Error)));
}

#[test]
fn download_steps() {
    let a = ImageApi::download_step("http://x".to_string(), DownloadEvent::RequestFailed("dns".to_string()));
    assert_eq!(
        a,
        DownloadAction::Fail(ImageError::CanNodDownloadByURL(CanNodDownloadByURLError {
            url: "http://x".to_string(),
            error: "dns".to_string(),
        }))
    );
    let a = ImageApi::download_step(
        "http://x".to_string(),
        DownloadEvent::Responded(response(true, &[("content-type", b"image/png")])),
    );
    assert_eq!(a, DownloadAction::ReadBody(DownloadPlan { format: ImageFormat::Png, body_limit: 0 }));
    let a = ImageApi::download_step(
        "http://x".to_string(),
        DownloadEvent::Responded(response(true, &[("content-type", b"text/plain")])),
    );
    assert_eq!(a, DownloadAction::Fail(ImageError::UnsupportedImageFormat(UnsupportedImageFormatError)));
    let a = ImageApi::download_step("http://x".to_string(), DownloadEvent::BodyRead(vec![7, 8]));
    assert_eq!(a, DownloadAction::Upload(vec![7, 8]));
    let a = ImageApi::download_step("http://x".to_string(), DownloadEvent::BodyFailed);
    assert_eq!(a, DownloadAction::Fail(ImageError::Message("can not read body".to_string())));
}

#[test]
fn image_paths() {
    assert_eq!(ImageApi::image_path("3"), "files/Image_3.png");
    assert_eq!(ImageApi::image_path("3mini"), "files/Image_3mini.png");
}

#[test]
fn stored_file_names_never_collide() {
    let mut api = ImageApi::new();
    let mut paths = Vec::new();
    for _ in 0..25 {
        let job = api.upload_image(vec![]);
        paths.push(job.file_path.clone());
        paths.push(job.mini_path.clone());
    }
    let mut unique = paths.clone();
    unique.sort();
    unique.dedup();
    assert_eq!(unique.len(), paths.len());
    assert_eq!(api.get_images_list(), (1..26).collect::<Vec<usize>>());
}
