//! The web request and response shapes used by the verification probe and by
//! the catalog's web endpoint.
use vstd::prelude::*;
use vstd::string::{StrSliceExecFns, StringExecFns};
use vstd::utf8::encode_utf8;
use crate::text::str_eq;

verus! {

/// A web request: the probe sent to a listing's claimed endpoint carries an
/// optional caller account and an empty path; on the retry the parameter maps
/// are present but empty, which lets the endpoint tell a retry from a first
/// probe.
pub struct Web4Request {
    pub account_id: Option<String>,
    pub path: String,
    pub params: Option<Vec<(String, String)>>,
    pub query: Option<Vec<(String, Vec<String>)>>,
    pub preloads: Option<Vec<(String, Web4Response)>>,
}

/// A web response.  Any of these shapes counts as a successful answer to the
/// verification probe: the probe checks reachability, not content.
pub enum Web4Response {
    Body { content_type: String, body: Vec<u8> },
    BodyUrl { body_url: String },
    PreloadUrls { preload_urls: Vec<String> },
    Status { status: u32 },
}

impl Web4Response {
    /// A response carrying markup.
    pub fn html_response(html: String) -> (r: Self)
        ensures
            r matches Web4Response::Body { content_type, body } && content_type@
                == "text/html; charset=UTF-8"@ && body@ == encode_utf8(html@),
    {
        Self::Body {
            content_type: String::from_str("text/html; charset=UTF-8"),
            body: html.as_str().as_bytes_vec(),
        }
    }

    /// A response carrying plain text.
    pub fn plain_response(text: String) -> (r: Self)
        ensures
            r matches Web4Response::Body { content_type, body } && content_type@
                == "text/plain; charset=UTF-8"@ && body@ == encode_utf8(text@),
    {
        Self::Body {
            content_type: String::from_str("text/plain; charset=UTF-8"),
            body: text.as_str().as_bytes_vec(),
        }
    }

    /// A response carrying a vector image.
    pub fn svg_response(text: String) -> (r: Self)
        ensures
            r matches Web4Response::Body { content_type, body } && content_type@
                == "image/svg+xml"@ && body@ == encode_utf8(text@),
    {
        Self::Body {
            content_type: String::from_str("image/svg+xml"),
            body: text.as_str().as_bytes_vec(),
        }
    }

    /// A response asking the gateway to preload other resources.
    pub fn preload_urls(urls: Vec<String>) -> (r: Self)
        ensures
            r matches Web4Response::PreloadUrls { preload_urls } && preload_urls == urls,
    {
        Self::PreloadUrls { preload_urls: urls }
    }

    /// A response redirecting to a body hosted elsewhere.
    pub fn body_url(url: String) -> (r: Self)
        ensures
            r matches Web4Response::BodyUrl { body_url } && body_url == url,
    {
        Self::BodyUrl { body_url: url }
    }

    /// A bare status code.
    pub fn status(status: u32) -> (r: Self)
        ensures
            r matches Web4Response::Status { status: s } && s == status,
    {
        Self::Status { status }
    }
}


/// The link a social handle points at, by icon name; the handle itself for
/// the chat service, nothing for an unknown icon.
pub open spec fn icon_link(value: Seq<char>, icon: Seq<char>) -> Seq<char> {
    if icon == "twitter"@ {
        "https://twitter.com/"@ + value
    } else if icon == "facebook"@ {
        "https://facebook.com/"@ + value
    } else if icon == "medium"@ {
        "https://medium.com/"@ + value
    } else if icon == "telegram"@ {
        "https://t.me/"@ + value
    } else if icon == "discord"@ {
        value
    } else if icon == "github"@ {
        "https://github.com/"@ + value
    } else {
        Seq::empty()
    }
}

/// The icon anchor as it appears on a listing's own card.
pub open spec fn icon_html_home(link: Seq<char>, icon: Seq<char>) -> Seq<char> {
    "<a href=\""@ + link
        + "\" target=\"_blank\"><svg class=\"icon\" height=\"20\" width=\"20\"><use xlink:href=\"#icon-"@
        + icon + "\"></use></svg></a>"@
}

/// The icon anchor as it appears on a listing's detail page.
pub open spec fn icon_html_full(link: Seq<char>, icon: Seq<char>) -> Seq<char> {
    "<a href=\""@ + link
        + "\" target=\"_blank\" rel=\"noopener noreferrer\" class=\"link-item btn btn-lg btn-link\" title=\""@
        + icon + "\"><svg class=\"icon icon-"@ + icon
        + "\" height=\"20\" width=\"20\"><use xlink:href=\"#icon-"@ + icon
        + "\"></use></svg></a>"@
}

/// What `format_icon` renders: nothing for an absent or empty handle, else
/// the anchor markup around the handle's link.
pub open spec fn format_icon_spec(value: Option<String>, icon: Seq<char>, homepage: bool) -> Seq<
    char,
> {
    match value {
        Option::Some(v) => if v@.len() > 0 {
            let link = icon_link(v@, icon);
            if homepage {
                icon_html_home(link, icon)
            } else {
                icon_html_full(link, icon)
            }
        } else {
            Seq::empty()
        },
        Option::None => Seq::empty(),
    }
}

/// Renders the anchor markup for one social handle of a listing.
pub fn format_icon(value: Option<String>, icon: &str, homepage: bool) -> (r: String)
    ensures
        r@ == format_icon_spec(value, icon@, homepage),
{
    let v = match value {
        Some(v) => v,
        None => {
            let r = String::new();
            proof {
                assert(r@ =~= format_icon_spec(value, icon@, homepage));
            }
            return r;
        }
    };
    if v.as_str().is_empty() {
        let r = String::new();
        proof {
            assert(r@ =~= format_icon_spec(value, icon@, homepage));
        }
        return r;
    }
    let link: String = if str_eq(icon, "twitter") {
        String::from_str("https://twitter.com/").concat(v.as_str())
    } else if str_eq(icon, "facebook") {
        String::from_str("https://facebook.com/").concat(v.as_str())
    } else if str_eq(icon, "medium") {
        String::from_str("https://medium.com/").concat(v.as_str())
    } else if str_eq(icon, "telegram") {
        String::from_str("https://t.me/").concat(v.as_str())
    } else if str_eq(icon, "discord") {
        v
    } else if str_eq(icon, "github") {
        String::from_str("https://github.com/").concat(v.as_str())
    } else {
        String::new()
    };
    if homepage {
        let r = String::from_str("<a href=\"").concat(link.as_str()).concat(
            "\" target=\"_blank\"><svg class=\"icon\" height=\"20\" width=\"20\"><use xlink:href=\"#icon-",
        ).concat(icon).concat("\"></use></svg></a>");
        proof {
            assert(r@ =~= format_icon_spec(value, icon@, true));
        }
        r
    } else {
        let r = String::from_str("<a href=\"").concat(link.as_str()).concat(
            "\" target=\"_blank\" rel=\"noopener noreferrer\" class=\"link-item btn btn-lg btn-link\" title=\"",
        ).concat(icon).concat("\"><svg class=\"icon icon-").concat(icon).concat(
            "\" height=\"20\" width=\"20\"><use xlink:href=\"#icon-",
        ).concat(icon).concat("\"></use></svg></a>");
        proof {
            assert(r@ =~= format_icon_spec(value, icon@, false));
        }
        r
    }
}

} // verus!
