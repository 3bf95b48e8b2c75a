use vstd::prelude::*;
use vstd::string::*;

verus! {

/// The content type under which a static file with extension `ext` is
/// served; files of unknown kind are served as plain bytes.
pub open spec fn content_type_of(ext: Option<Seq<char>>) -> Seq<char> {
    match ext {
        Some(e) => if e == "css"@ {
            "text/css; charset=utf-8"@
        } else if e == "html"@ {
            "text/html; charset=utf-8"@
        } else if e == "js"@ {
            "application/javascript"@
        } else {
            "application/octet-stream"@
        },
        None => "application/octet-stream"@,
    }
}

/// Whether `ext` is one of the extensions whose content type is known.
pub open spec fn is_known_extension(ext: Option<Seq<char>>) -> bool {
    match ext {
        Some(e) => e == "css"@ || e == "html"@ || e == "js"@,
        None => false,
    }
}

/// Whether a static file with extension `ext` is of a known kind.
pub fn has_known_extension(ext: Option<&str>) -> (r: bool)
    ensures
        r == is_known_extension(
            match ext {
                Some(e) => Some(e@),
                None => None,
            },
        ),
{
    match ext {
        Some(e) => {
            let e = String::from_str(e);
            e == String::from_str("css") || e == String::from_str("html") || e == String::from_str(
                "js",
            )
        },
        None => false,
    }
}

/// The content type of a static file, from its extension, if it has one.
pub fn content_type(ext: Option<&str>) -> (r: &'static str)
    ensures
        r@ == content_type_of(
            match ext {
                Some(e) => Some(e@),
                None => None,
            },
        ),
{
    match ext {
        Some(e) => {
            let e = String::from_str(e);
            if e == String::from_str("css") {
                "text/css; charset=utf-8"
            } else if e == String::from_str("html") {
                "text/html; charset=utf-8"
            } else if e == String::from_str("js") {
                "application/javascript"
            } else {
                "application/octet-stream"
            }
        },
        None => "application/octet-stream",
    }
}

} // verus!
