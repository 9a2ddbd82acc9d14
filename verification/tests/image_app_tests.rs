use image_api::errors::{ImageError, TextNotBase64Error};
use image_api::image_api::{ImageApi, PutImageAction};
use image_api::image_app::{FieldStart, ImageApp, PageTemplate, ToMainMessage};

fn template() -> PageTemplate {
    PageTemplate { begin: "<html>".to_string(), form: "<form/>".to_string(), end: "</html>".to_string() }
}

#[test]
fn empty_page() {
    let app = ImageApp::new(ImageApi::new());
    assert_eq!(app.show_image(&template()), "<html><form/></html>");
}

#[test]
fn page_with_answers_errors_and_images() {
    let mut api = ImageApi::new();
    api.upload_image(vec![1]);
    api.upload_image(vec![2]);
    let app = ImageApp::new(api);
    let answers = vec!["saved a".to_string(), "saved b".to_string()];
    let errors = vec![ImageError::TextNotBase64(TextNotBase64Error), ImageError::Message("oops".to_string())];
    let page = app.create_page(&template(), &answers, &errors);
    let expected = [
        "<html>",
        "<div class=\"success\">saved a<br>saved b<br></div><br>",
        "<div class=\"error\">Text is not valid base64<br>oops<br></div><br>",
        "<form/>",
        "<div class=\"image_box\">Image_2<img width=\"400px\" src=\"get_image/2\" alt=\"Image 2\">",
        "<img width=\"400px\" src=\"get_image/2mini\" alt=\"Image 2mini\"></div>",
        "<div class=\"image_box\">Image_1<img width=\"400px\" src=\"get_image/1\" alt=\"Image 1\">",
        "<img width=\"400px\" src=\"get_image/1mini\" alt=\"Image 1mini\"></div>",
        "</html>",
    ]
    .join("");
    assert_eq!(page, expected);
}

#[test]
fn answers_and_errors_are_sorted_out() {
    let outcomes = vec![
        Ok(Some("a".to_string())),
        Err(ImageError::Message("e1".to_string())),
        Ok(None),
        Ok(Some("b".to_string())),
        Err(ImageError::Message("e2".to_string())),
    ];
    let (answers, errors) = ImageApp::collect_answers(outcomes);
    assert_eq!(answers, vec!["a".to_string(), "b".to_string()]);
    assert_eq!(
        errors,
        vec![ImageError::Message("e1".to_string()), ImageError::Message("e2".to_string())]
    );
    let (answers, errors) = ImageApp::collect_answers(vec![]);
    assert!(answers.is_empty() && errors.is_empty());
}

#[test]
fn submission_page() {
    let app = ImageApp::new(ImageApi::new());
    let page = app.put_image(&template(), vec![Ok(None), Err(ImageError::Message("bad".to_string()))]);
    assert_eq!(page, "<html><div class=\"error\">bad<br></div><br><form/></html>");
}

#[test]
fn fields_are_read_by_disposition() {
    assert_eq!(ImageApp::read_field(None), FieldStart::Skip);
    assert_eq!(ImageApp::read_field(Some(None)), FieldStart::MissingName);
    assert_eq!(ImageApp::read_field(Some(Some("text".to_string()))), FieldStart::Read("text".to_string()));
    assert_eq!(ImageApp::field_content("file".to_string(), vec![]), None);
    assert_eq!(ImageApp::field_content("file".to_string(), vec![1]), Some(("file".to_string(), vec![1])));
}

#[test]
fn text_fields() {
    let r = ImageApp::process_put_image("text".to_string(), b"data:image/png;base64,aGk=".to_vec());
    assert_eq!(r, Ok(Some(PutImageAction::Upload(b"hi".to_vec()))));
    let r = ImageApp::process_put_image("text".to_string(), b"https://example.org/x.jpg".to_vec());
    assert_eq!(r, Ok(Some(PutImageAction::Download("https://example.org/x.jpg".to_string()))));
    let r = ImageApp::process_put_image("text".to_string(), b"not an image".to_vec());
    assert_eq!(r, Err(ImageError::TextNotBase64(TextNotBase64Error)));
    let r = ImageApp::process_put_image("text".to_string(), vec![]);
    assert_eq!(r, Ok(None));
    let r = ImageApp::process_put_image("text".to_string(), vec![0xc3, 0x28]);
    assert_eq!(r, Err(ImageError::Message("aaa==".to_string())));
}

#[test]
fn file_and_other_fields() {
    let r = ImageApp::process_put_image("file".to_string(), vec![0xff, 0x00]);
    assert_eq!(r, Ok(Some(PutImageAction::Upload(vec![0xff, 0x00]))));
    let r = ImageApp::process_put_image("file".to_string(), vec![]);
    assert_eq!(r, Ok(None));
    let r = ImageApp::process_put_image("other".to_string(), vec![1, 2]);
    assert_eq!(r, Ok(None));
}

#[test]
fn image_requests() {
    assert_eq!(ImageApp::get_image(""), None);
    assert_eq!(ImageApp::get_image("5"), Some("files/Image_5.png".to_string()));
    assert_eq!(ImageApp::get_image("5mini"), Some("files/Image_5mini.png".to_string()));
}

#[test]
fn main_loop_message() {
    assert_eq!(ToMainMessage::CtrlC, ToMainMessage::CtrlC);
}
