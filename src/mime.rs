use vstd::prelude::*;

use http::response::Builder;

verus! {

/// The kinds of document the server sends.
#[derive(Debug, Clone, Copy, PartialEq, Eq, Structural)]
pub enum Mime {
    Html,
    Css,
    Js,
}

pub open spec fn mime_text(m: Mime) -> Seq<char> {
    match m {
        Mime::Html => "text/html; charset=utf-8"@,
        Mime::Css => "text/css; charset=utf-8"@,
        Mime::Js => "text/javascript; charset=utf-8"@,
    }
}

impl Mime {
    /// The value of a `content-type` header for this kind of document.
    pub fn as_str(&self) -> (r: &'static str)
        ensures
            r@ == mime_text(*self),
    {
        match self {
            Mime::Html => "text/html; charset=utf-8",
            Mime::Css => "text/css; charset=utf-8",
            Mime::Js => "text/javascript; charset=utf-8",
        }
    }
}

/// Something that can be told the kind of document it carries.
pub trait MimeAware {
    fn content_type(self, mime: Mime) -> Self;
}

#[verifier::external_type_specification]
#[verifier::external_body]
pub struct ExBuilder(Builder);

/// Relies on `http::response::Builder::header`: appends the header to the
/// response being built.
#[verifier::external_body]
fn set_header(builder: Builder, name: &str, value: &str) -> Builder {
    builder.header(name, value)
}

impl MimeAware for Builder {
    fn content_type(self, mime: Mime) -> Self {
        set_header(self, "content-type", mime.as_str())
    }
}

} // verus!
