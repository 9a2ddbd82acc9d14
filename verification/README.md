# image_api

A small image-hosting web service. Users submit a form with a file, a base64
data URL or a URL; the service stores the image together with a 200x200
thumbnail under `files/Image_{n}.png` and `files/Image_{n}mini.png` and shows
every stored image on a page.

- `src/` is the verified library (Verus):
  - `text.rs`: decimal rendering of indices and decimal parsing of numbers;
  - `errors.rs`: the service's errors and the texts shown for them;
  - `codecs.rs`: the trusted calls into `base64`, `url` and std's UTF-8 checks;
  - `image_api.rs`: what an input asks for, the allocation of image indices
    and file names, the steps of storing an upload with its thumbnail, and the
    decisions taken on a downloaded response;
  - `image_app.rs`: what a form field asks for, the sorting of a submission's
    answers and errors, and the HTML page.
- `app/` is the server around it: actix-web handlers, file and network I/O,
  and the OpenCV calls that make thumbnails. It reads the page template from
  `html/page_begin.html`, `html/form.html` and `html/page_end.html`.
- `tests/` runs the library on concrete inputs.
