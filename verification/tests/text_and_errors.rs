use image_api::errors::{
    CanNodDownloadByURLError, CanNotCreateImage, CanNotCreateImageFileError, CanNotOpenImage,
    CanNotParseAsNumberError, CanNotReadImageFileError, CanNotResizeImage, CanNotSaveImage,
    CanNotWriteImageFileError, ImageError, TextNotBase64Error, TextNotURLError, TextNotUTF8Error,
    UnsupportedImageFormatError,
};
use image_api::text::{parse_usize, push_decimal, usize_to_decimal};

#[test]
fn decimal_rendering() {
    assert_eq!(usize_to_decimal(0), "0");
    assert_eq!(usize_to_decimal(7), "7");
    assert_eq!(usize_to_decimal(10), "10");
    assert_eq!(usize_to_decimal(12345), "12345");
    assert_eq!(usize_to_decimal(usize::MAX), usize::MAX.to_string());
    let mut s = String::from("Image_");
    push_decimal(&mut s, 42);
    assert_eq!(s, "Image_42");
}

#[test]
fn decimal_parsing_accepts_what_std_accepts() {
    assert_eq!(parse_usize(b"123"), Some(123));
    assert_eq!(parse_usize(b"0"), Some(0));
    assert_eq!(parse_usize(b"007"), Some(7));
    assert_eq!(parse_usize(b"+7"), Some(7));
    assert_eq!(parse_usize(b""), None);
    assert_eq!(parse_usize(b"+"), None);
    assert_eq!(parse_usize(b"-1"), None);
    assert_eq!(parse_usize(b"-0"), None);
    assert_eq!(parse_usize(b"12a"), None);
    assert_eq!(parse_usize(b" 12"), None);
    let max = usize::MAX.to_string();
    assert_eq!(parse_usize(max.as_bytes()), Some(usize::MAX));
    let over = format!("{}0", usize::MAX);
    assert_eq!(parse_usize(over.as_bytes()), None);
    for text in ["123", "+7", "", "+", "-1", "-0", "12a", " 12", "00", "+-1"] {
        assert_eq!(parse_usize(text.as_bytes()), text.parse::<usize>().ok(), "{}", text);
    }
}

#[test]
fn error_texts() {
    assert_eq!(TextNotBase64Error.text(), "Text is not valid base64");
    assert_eq!(TextNotUTF8Error.text(), "Text is not valid UTF-8");
    assert_eq!(TextNotURLError.text(), "Text is not valid URL");
    assert_eq!(
        UnsupportedImageFormatError.text(),
        "Unsupported image format, supported:Png, Jpeg"
    );
    assert_eq!(CanNotCreateImage.text(), "Can not create an image");
    assert_eq!(CanNotResizeImage.text(), "Can not resize an image");
    let e = CanNotCreateImageFileError { path: "files/a.png".to_string(), error: "denied".to_string() };
    assert_eq!(e.text(), "Can not create image file \"files/a.png\" error: \"denied\"");
    let e = CanNotWriteImageFileError { path: "p".to_string(), error: "full".to_string() };
    assert_eq!(e.text(), "Can not write image file \"p\" error: \"full\"");
    let e = CanNotReadImageFileError { path: "p".to_string(), error: "gone".to_string() };
    assert_eq!(e.text(), "Can not read image file \"p\" error: \"gone\"");
    let e = CanNotParseAsNumberError { string: "abc".to_string() };
    assert_eq!(e.text(), "Can not parse \"abc\" as number");
    let e = CanNodDownloadByURLError { url: "http://x".to_string(), error: "404 Not Found".to_string() };
    assert_eq!(e.text(), "Can not download by given URL \"http://x\" error: \"404 Not Found\"");
    assert_eq!(CanNotOpenImage::new("files/Image_1.png".to_string()).text(), "Can not open an image  \"files/Image_1.png\"");
    assert_eq!(CanNotSaveImage::new("files/Image_1mini.png".to_string()).text(), "Can not save an image  \"files/Image_1mini.png\"");
}

#[test]
fn image_error_text_is_the_inner_text() {
    assert_eq!(ImageError::TextNotBase64(TextNotBase64Error).text(), "Text is not valid base64");
    assert_eq!(ImageError::Message("can not read body".to_string()).text(), "can not read body");
    assert_eq!(
        ImageError::CanNotOpenImage(CanNotOpenImage::new("x".to_string())).text(),
        "Can not open an image  \"x\""
    );
}

#[test]
fn download_error_from_url_and_text() {
    let e = CanNodDownloadByURLError::from(("http://a/b".to_string(), "timeout".to_string()));
    assert_eq!(e.url, "http://a/b");
    assert_eq!(e.error, "timeout");
}
