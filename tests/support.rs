use dice::mime::{Mime, MimeAware};
use dice::template::{template_name, TemplateError};

#[test]
fn mime_strings() {
    assert_eq!("text/html; charset=utf-8", Mime::Html.as_str());
    assert_eq!("text/css; charset=utf-8", Mime::Css.as_str());
    assert_eq!("text/javascript; charset=utf-8", Mime::Js.as_str());
}

#[test]
fn mime_sets_content_type() {
    let response = http::Response::builder().content_type(Mime::Css).body(()).unwrap();
    assert_eq!("text/css; charset=utf-8", response.headers()["content-type"]);
}

#[test]
fn template_names() {
    assert_eq!("index.html", template_name("./templates/index.html.liquid"));
    assert_eq!("style.css", template_name("style.css.liquid"));
    assert_eq!("b", template_name("a/b.liquid.liquid"));
    assert_eq!("", template_name("dir/"));
    assert_eq!("main.js", template_name("main.js"));
    assert_eq!("", template_name(".liquid"));
}

#[test]
fn template_error_carries_path() {
    match TemplateError::TemplateNotFound("x".to_string()) {
        TemplateError::TemplateNotFound(p) => assert_eq!("x", p),
        TemplateError::InvalidTemplatePath(_) => unreachable!(),
    }
}
