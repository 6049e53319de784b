//! Recognising the postcard media type in a `Content-Type` header.
use vstd::prelude::*;
use vstd::string::StringExecFns;

verus! {

/// Type, subtype and suffix of a media type.
pub struct MediaView {
    pub top: Seq<char>,
    pub subtype: Seq<char>,
    pub suffix: Option<Seq<char>>,
}

/// What the `mime` crate's parser makes of a media type: its lower-cased
/// type, subtype and `+suffix`; `None` when it rejects the text.
pub uninterp spec fn media_type_of(s: Seq<char>) -> Option<MediaView>;

/// A parsed media type.
pub struct MediaType {
    pub top: String,
    pub subtype: String,
    pub suffix: Option<String>,
}

impl View for MediaType {
    type V = MediaView;

    open spec fn view(&self) -> MediaView {
        MediaView {
            top: self.top@,
            subtype: self.subtype@,
            suffix: match self.suffix {
                Some(s) => Some(s@),
                None => None,
            },
        }
    }
}

/// Relies on `mime::Mime::from_str` and its accessors `type_`, `subtype` and
/// `suffix`, whose text the parser has lower-cased.
#[verifier::external_body]
fn parse_media_type(s: &str) -> (r: Option<MediaType>)
    ensures
        match r {
            Some(m) => media_type_of(s@) == Some(m@),
            None => media_type_of(s@) is None,
        },
{
    let m = s.parse::<mime::Mime>().ok()?;
    Some(MediaType {
        top: m.type_().as_str().to_string(),
        subtype: m.subtype().as_str().to_string(),
        suffix: m.suffix().map(|n| n.as_str().to_string()),
    })
}

/// Whether a media type names postcard: type `application` with subtype
/// `postcard` or suffix `+postcard`.
pub open spec fn is_postcard(m: Option<MediaView>) -> bool {
    match m {
        Some(v) => v.top == "application"@ && (v.subtype == "postcard"@ || v.suffix == Some("postcard"@)),
        None => false,
    }
}

/// Whether a `Content-Type` value announces a postcard body.
pub fn postcard_content_type(content_type: &str) -> (r: bool)
    ensures
        r == is_postcard(media_type_of(content_type@)),
{
    let m = match parse_media_type(content_type) {
        Some(m) => m,
        None => return false,
    };
    let application = String::from_str("application");
    let postcard = String::from_str("postcard");
    if m.top != application {
        return false;
    }
    if m.subtype == postcard {
        return true;
    }
    match &m.suffix {
        Some(s) => *s == postcard,
        None => false,
    }
}

} // verus!
