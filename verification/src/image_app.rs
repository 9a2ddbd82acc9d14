//! The web front of the image store: what a submitted form field asks for,
//! how the answers of a submission are gathered, and the HTML page.

use vstd::prelude::*;
use vstd::utf8::{decode_utf8, valid_utf8};

use crate::codecs::utf8_string;
use crate::errors::ImageError;
use crate::image_api::{
    put_content_outcome, put_text_outcome, requested_image_path, stored_indices, ImageApi,
    PutImageAction, PutImageInput,
};
use crate::text::{decimal, push_decimal};

verus! {

broadcast use vstd::utf8::decode_utf8_encode_utf8;

/// The HTML around the generated parts of the page: what comes first, the
/// upload form, and what comes last.
#[derive(Debug, PartialEq, Eq)]
pub struct PageTemplate {
    pub begin: String,
    pub form: String,
    pub end: String,
}

/// The web application: the image store that it shows and fills.
#[derive(Debug)]
pub struct ImageApp {
    pub api: ImageApi,
}

/// A message to the main loop of the server: stop on Ctrl-C.
#[derive(Debug, Clone, Copy, PartialEq, Eq, Structural)]
pub enum ToMainMessage {
    CtrlC,
}

/// What to do with a submitted form field, from its content disposition.
#[derive(Debug, PartialEq, Eq)]
pub enum FieldStart {
    /// The field has no content disposition: it gives nothing.
    Skip,
    /// The disposition has no name: the submission fails.
    MissingName,
    /// Read the content of the field called so.
    Read(String),
}

/// The text lines of a list: each item followed by a line break.
pub open spec fn lines(items: Seq<Seq<char>>) -> Seq<char>
    decreases items.len(),
{
    if items.len() == 0 {
        Seq::empty()
    } else {
        lines(items.drop_last()) + items.last() + "<br>"@
    }
}

/// A box of the given class holding the lines of `items`; nothing when there
/// are none.
pub open spec fn notice_block(open_tag: Seq<char>, items: Seq<Seq<char>>) -> Seq<char> {
    if items.len() == 0 {
        Seq::empty()
    } else {
        open_tag + lines(items) + "</div><br>"@
    }
}

/// The texts of a list of errors.
pub open spec fn error_messages(errors: Seq<ImageError>) -> Seq<Seq<char>> {
    errors.map_values(|e: ImageError| e.message())
}

/// The texts of a list of answers.
pub open spec fn answer_texts(answers: Seq<String>) -> Seq<Seq<char>> {
    answers.map_values(|a: String| a@)
}

/// The box that shows the image with the given index and its thumbnail.
pub open spec fn image_box(index: usize) -> Seq<char> {
    let d = decimal(index as nat);
    "<div class=\"image_box\">"@ + "Image_"@ + d + "<img width=\"400px\" src=\"get_image/"@ + d
        + "\" alt=\"Image "@ + d + "\">"@ + "<img width=\"400px\" src=\"get_image/"@ + d
        + "mini\" alt=\"Image "@ + d + "mini\">"@ + "</div>"@
}

/// The boxes of the given images, the last one first.
pub open spec fn image_boxes(indices: Seq<usize>) -> Seq<char>
    decreases indices.len(),
{
    if indices.len() == 0 {
        Seq::empty()
    } else {
        image_boxes(indices.drop_first()) + image_box(indices[0])
    }
}

/// The images part of the page holds one box per index, the last index
/// first: adding an index at the end puts its box in front of the others.
pub proof fn law_image_boxes_push(s: Seq<usize>, x: usize)
    ensures
        image_boxes(s.push(x)) == image_box(x) + image_boxes(s),
        image_boxes(s.push(x)).len() == image_box(x).len() + image_boxes(s).len(),
    decreases s.len(),
{
    if s.len() == 0 {
        let t = s.push(x);
        assert(t.drop_first() =~= s);
        assert(t[0] == x);
        assert(image_boxes(s) == Seq::<char>::empty());
        assert(image_boxes(t) == image_boxes(t.drop_first()) + image_box(t[0]));
        assert(image_boxes(t) =~= image_box(x) + image_boxes(s));
    } else {
        law_image_boxes_push(s.drop_first(), x);
        let t = s.push(x);
        assert(t.drop_first() =~= s.drop_first().push(x));
        assert(t[0] == s[0]);
        assert(image_boxes(t) == image_boxes(t.drop_first()) + image_box(t[0]));
        assert(image_boxes(s) == image_boxes(s.drop_first()) + image_box(s[0]));
        assert(image_boxes(t) =~= image_box(x) + image_boxes(s));
    }
}

/// The page: the beginning, the answers, the errors, the form, the images
/// (newest first) and the end.
pub open spec fn page(
    begin: Seq<char>,
    form: Seq<char>,
    end: Seq<char>,
    answers: Seq<Seq<char>>,
    errors: Seq<Seq<char>>,
    images: Seq<usize>,
) -> Seq<char> {
    begin + notice_block("<div class=\"success\">"@, answers) + notice_block(
        "<div class=\"error\">"@,
        errors,
    ) + form + image_boxes(images) + end
}

/// The answers among the outcomes of the fields of a submission, in order.
pub open spec fn answers_of(outcomes: Seq<Result<Option<String>, ImageError>>) -> Seq<String>
    decreases outcomes.len(),
{
    if outcomes.len() == 0 {
        Seq::empty()
    } else {
        let rest = answers_of(outcomes.drop_first());
        match outcomes[0] {
            Ok(Some(a)) => seq![a] + rest,
            _ => rest,
        }
    }
}

/// The errors among the outcomes of the fields of a submission, in order.
pub open spec fn errors_of(outcomes: Seq<Result<Option<String>, ImageError>>) -> Seq<ImageError>
    decreases outcomes.len(),
{
    if outcomes.len() == 0 {
        Seq::empty()
    } else {
        let rest = errors_of(outcomes.drop_first());
        match outcomes[0] {
            Err(e) => seq![e] + rest,
            _ => rest,
        }
    }
}

/// Every outcome of a field is accounted for, in order: an error is kept
/// among the errors whatever error it is, an answer among the answers, and a
/// field that gave nothing is dropped from both.
pub proof fn law_outcomes_sorted(
    e: ImageError,
    a: String,
    rest: Seq<Result<Option<String>, ImageError>>,
)
    ensures
        errors_of(seq![Err(e)] + rest) == seq![e] + errors_of(rest),
        answers_of(seq![Err(e)] + rest) == answers_of(rest),
        answers_of(seq![Ok(Some(a))] + rest) == seq![a] + answers_of(rest),
        errors_of(seq![Ok(Some(a))] + rest) == errors_of(rest),
        answers_of(seq![Ok(None)] + rest) == answers_of(rest),
        errors_of(seq![Ok(None)] + rest) == errors_of(rest),
{
    let s1: Seq<Result<Option<String>, ImageError>> = seq![Err(e)] + rest;
    let s2: Seq<Result<Option<String>, ImageError>> = seq![Ok(Some(a))] + rest;
    let s3: Seq<Result<Option<String>, ImageError>> = seq![Ok(None)] + rest;
    assert(s1.drop_first() =~= rest);
    assert(s2.drop_first() =~= rest);
    assert(s3.drop_first() =~= rest);
    assert(s1[0] == Err::<Option<String>, ImageError>(e));
    assert(s2[0] == Ok::<Option<String>, ImageError>(Some(a)));
    assert(s3[0] == Ok::<Option<String>, ImageError>(None));
}

fn push_lines(page: &mut String, items: &Vec<String>)
    ensures
        final(page)@ == old(page)@ + lines(answer_texts(items@)),
{
    let ghost start = page@;
    let ghost texts = answer_texts(items@);
    let mut i: usize = 0;
    while i < items.len()
        invariant
            i <= items@.len(),
            texts == answer_texts(items@),
            texts.len() == items@.len(),
            page@ == start + lines(texts.take(i as int)),
        decreases items@.len() - i,
    {
        let ghost before = page@;
        page.append(items[i].as_str());
        page.append("<br>");
        proof {
            let next = texts.take(i as int + 1);
            assert(next.drop_last() =~= texts.take(i as int));
            assert(next.last() == items@[i as int]@);
            assert(page@ =~= start + lines(next));
        }
        i = i + 1;
    }
    assert(texts.take(items@.len() as int) =~= texts);
}

fn push_error_lines(page: &mut String, errors: &Vec<ImageError>)
    ensures
        final(page)@ == old(page)@ + lines(error_messages(errors@)),
{
    let ghost start = page@;
    let ghost texts = error_messages(errors@);
    let mut i: usize = 0;
    while i < errors.len()
        invariant
            i <= errors@.len(),
            texts == error_messages(errors@),
            texts.len() == errors@.len(),
            page@ == start + lines(texts.take(i as int)),
        decreases errors@.len() - i,
    {
        let text = errors[i].text();
        page.append(text.as_str());
        page.append("<br>");
        proof {
            let next = texts.take(i as int + 1);
            assert(next.drop_last() =~= texts.take(i as int));
            assert(next.last() == errors@[i as int].message());
            assert(page@ =~= start + lines(next));
        }
        i = i + 1;
    }
    assert(texts.take(errors@.len() as int) =~= texts);
}

fn push_image_box(page: &mut String, index: usize)
    ensures
        final(page)@ == old(page)@ + image_box(index),
{
    let ghost start = page@;
    page.append("<div class=\"image_box\">");
    page.append("Image_");
    push_decimal(page, index);
    page.append("<img width=\"400px\" src=\"get_image/");
    push_decimal(page, index);
    page.append("\" alt=\"Image ");
    push_decimal(page, index);
    page.append("\">");
    page.append("<img width=\"400px\" src=\"get_image/");
    push_decimal(page, index);
    page.append("mini\" alt=\"Image ");
    push_decimal(page, index);
    page.append("mini\">");
    page.append("</div>");
    assert(page@ =~= start + image_box(index));
}

fn push_image_boxes(page: &mut String, indices: &Vec<usize>)
    ensures
        final(page)@ == old(page)@ + image_boxes(indices@),
{
    let ghost start = page@;
    let n = indices.len();
    let mut k: usize = n;
    assert(indices@.subrange(n as int, n as int) =~= Seq::<usize>::empty());
    while k > 0
        invariant
            k <= n,
            n == indices@.len(),
            page@ == start + image_boxes(indices@.subrange(k as int, n as int)),
        decreases k,
    {
        push_image_box(page, indices[k - 1]);
        proof {
            let s = indices@.subrange(k - 1, n as int);
            assert(s.drop_first() =~= indices@.subrange(k as int, n as int));
            assert(s[0] == indices@[k - 1]);
            assert(page@ =~= start + image_boxes(s));
        }
        k = k - 1;
    }
    assert(indices@.subrange(0, n as int) =~= indices@);
}

impl ImageApp {
    /// The application over the given image store.
    pub fn new(api: ImageApi) -> (app: Self)
        ensures
            app.api == api,
    {
        ImageApp { api }
    }

    /// The page with the given answers and errors, the upload form and the
    /// stored images, the newest first.
    pub fn create_page(&self, template: &PageTemplate, answers: &Vec<String>, errors: &Vec<ImageError>) -> (p: String)
        ensures
            p@ == page(
                template.begin@,
                template.form@,
                template.end@,
                answer_texts(answers@),
                error_messages(errors@),
                stored_indices(self.api.next_index()),
            ),
    {
        let mut p = String::new();
        p.append(template.begin.as_str());
        let ghost after_begin = p@;
        if answers.len() > 0 {
            p.append("<div class=\"success\">");
            push_lines(&mut p, answers);
            p.append("</div><br>");
        }
        assert(p@ =~= after_begin + notice_block("<div class=\"success\">"@, answer_texts(answers@)));
        let ghost after_answers = p@;
        if errors.len() > 0 {
            p.append("<div class=\"error\">");
            push_error_lines(&mut p, errors);
            p.append("</div><br>");
        }
        assert(p@ =~= after_answers + notice_block("<div class=\"error\">"@, error_messages(errors@)));
        p.append(template.form.as_str());
        let images = self.api.get_images_list();
        push_image_boxes(&mut p, &images);
        p.append(template.end.as_str());
        p
    }

    /// The page as first shown: no answers and no errors.
    pub fn show_image(&self, template: &PageTemplate) -> (p: String)
        ensures
            p@ == page(
                template.begin@,
                template.form@,
                template.end@,
                Seq::empty(),
                Seq::empty(),
                stored_indices(self.api.next_index()),
            ),
    {
        let answers: Vec<String> = Vec::new();
        let errors: Vec<ImageError> = Vec::new();
        let p = self.create_page(template, &answers, &errors);
        assert(answer_texts(answers@) =~= Seq::empty());
        assert(error_messages(errors@) =~= Seq::empty());
        p
    }
}

/// What a text field gives: `put_text_outcome` for the text, an action
/// being the answer to come.
pub open spec fn field_text_outcome(r: Result<Option<PutImageAction>, ImageError>, t: Seq<char>) -> bool {
    match r {
        Ok(Some(a)) => put_text_outcome(t, Ok(a)),
        Ok(None) => false,
        Err(e) => put_text_outcome(t, Err(e)),
    }
}

/// What a file field gives: `put_content_outcome` for the content.
pub open spec fn field_content_outcome(r: Result<Option<PutImageAction>, ImageError>, c: Seq<u8>) -> bool {
    match r {
        Ok(Some(a)) => put_content_outcome(c, Ok(a)),
        Ok(None) => false,
        Err(e) => put_content_outcome(c, Err(e)),
    }
}

impl ImageApp {
    /// Decides what to do with a field from its content disposition: `None`
    /// when there is none, `Some(None)` when it has no name.
    pub fn read_field(disposition: Option<Option<String>>) -> (r: FieldStart)
        ensures
            match disposition {
                None => r == FieldStart::Skip,
                Some(None) => r == FieldStart::MissingName,
                Some(Some(name)) => r == FieldStart::Read(name),
            },
    {
        match disposition {
            None => FieldStart::Skip,
            Some(None) => FieldStart::MissingName,
            Some(Some(name)) => FieldStart::Read(name),
        }
    }

    /// The field read: only a field with some content is kept.
    pub fn field_content(name: String, buffer: Vec<u8>) -> (r: Option<(String, Vec<u8>)>)
        ensures
            buffer@.len() > 0 ==> (r matches Some((n, b)) && n == name && b@ == buffer@),
            buffer@.len() == 0 ==> r is None,
    {
        if buffer.len() > 0 {
            Some((name, buffer))
        } else {
            None
        }
    }

    /// Sorts the outcomes of the fields of a submission: the answers and the
    /// errors, each in the order of the fields; fields that gave nothing are
    /// dropped.
    pub fn collect_answers(outcomes: Vec<Result<Option<String>, ImageError>>) -> (r: (Vec<String>, Vec<ImageError>))
        ensures
            r.0@ == answers_of(outcomes@),
            r.1@ == errors_of(outcomes@),
    {
        let ghost all = outcomes@;
        let mut rest = outcomes;
        let mut answers: Vec<String> = Vec::new();
        let mut errors: Vec<ImageError> = Vec::new();
        assert(all.skip(all.len() as int) =~= Seq::<Result<Option<String>, ImageError>>::empty());
        while rest.len() > 0
            invariant
                rest@ == all.take(rest@.len() as int),
                rest@.len() <= all.len(),
                answers@ == answers_of(all.skip(rest@.len() as int)),
                errors@ == errors_of(all.skip(rest@.len() as int)),
            decreases rest@.len(),
        {
            let ghost m = rest@.len() as int;
            let outcome = rest.pop().unwrap();
            proof {
                let s = all.skip(m - 1);
                assert(s.drop_first() =~= all.skip(m));
                assert(s[0] == outcome);
                assert(rest@ =~= all.take(m - 1));
            }
            match outcome {
                Ok(Some(answer)) => {
                    answers.insert(0, answer);
                },
                Ok(None) => {},
                Err(e) => {
                    errors.insert(0, e);
                },
            }
            proof {
                let s = all.skip(m - 1);
                assert(answers@ =~= answers_of(s));
                assert(errors@ =~= errors_of(s));
            }
        }
        assert(all.skip(0) =~= all);
        (answers, errors)
    }

    /// The page answering a submission: the answers and errors of its
    /// fields, the form and the stored images.
    pub fn put_image(&self, template: &PageTemplate, outcomes: Vec<Result<Option<String>, ImageError>>) -> (p: String)
        ensures
            p@ == page(
                template.begin@,
                template.form@,
                template.end@,
                answer_texts(answers_of(outcomes@)),
                error_messages(errors_of(outcomes@)),
                stored_indices(self.api.next_index()),
            ),
    {
        let (answers, errors) = Self::collect_answers(outcomes);
        self.create_page(template, &answers, &errors)
    }

    /// The file to send for a request of the image called `name`; `None`
    /// for an empty name.
    pub fn get_image(name: &str) -> (r: Option<String>)
        ensures
            name@.len() == 0 ==> r is None,
            name@.len() > 0 ==> (r matches Some(path) && path@ == requested_image_path(name@)),
    {
        if name.unicode_len() > 0 {
            Some(ImageApi::image_path(name))
        } else {
            None
        }
    }

    /// What a submitted field asks of the store. The `text` field, when it is
    /// UTF-8 and not empty, and the `file` field, when not empty, are put as
    /// `put_image` decides; a `text` field that is not UTF-8 fails with the
    /// message `aaa==`; any other field, and an empty one, asks for nothing.
    pub fn process_put_image(name: String, value: Vec<u8>) -> (r: Result<Option<PutImageAction>, ImageError>)
        requires
            name@ == "text"@ ==> value@.len() <= usize::MAX / 4,
        ensures
            name@ == "text"@ ==> {
                &&& !valid_utf8(value@) ==> (r matches Err(ImageError::Message(m)) && m@ == "aaa=="@)
                &&& valid_utf8(value@) && value@.len() == 0 ==> (r matches Ok(None))
                &&& valid_utf8(value@) && value@.len() > 0 ==> field_text_outcome(r, decode_utf8(value@))
            },
            name@ == "file"@ ==> {
                &&& value@.len() == 0 ==> (r matches Ok(None))
                &&& value@.len() > 0 ==> field_content_outcome(r, value@)
            },
            name@ != "text"@ && name@ != "file"@ ==> (r matches Ok(None)),
    {
        proof {
            reveal_strlit("text");
            reveal_strlit("file");
            assert("text"@[0] != "file"@[0]);
        }
        if name == String::from_str("text") {
            match utf8_string(value) {
                Some(text) => {
                    if text.as_str().len() > 0 {
                        let r = ImageApi::put_image(PutImageInput::Text(text));
                        match r {
                            Ok(a) => Ok(Some(a)),
                            Err(e) => Err(e),
                        }
                    } else {
                        Ok(None)
                    }
                },
                None => Err(ImageError::Message(String::from_str("aaa=="))),
            }
        } else if name == String::from_str("file") {
            if value.len() > 0 {
                let r = ImageApi::put_image(PutImageInput::Content(value));
                match r {
                    Ok(a) => Ok(Some(a)),
                    Err(e) => Err(e),
                }
            } else {
                Ok(None)
            }
        } else {
            Ok(None)
        }
    }
}

} // verus!
