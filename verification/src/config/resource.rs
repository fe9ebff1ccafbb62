//! Where the picture comes from: a path on this machine or a web address.
use vstd::prelude::*;

use crate::text::{has_prefix, starts_with};

verus! {

/// An image source: a system file path or a URL.
#[derive(Clone, Debug)]
pub struct Resource(String);

/// How a resource is fetched.
#[derive(Clone, Debug)]
pub enum Location {
    /// Download it from this web address.
    Web(String),
    /// Read it from this file.
    Local(String),
}

impl View for Resource {
    type V = Seq<char>;

    closed spec fn view(&self) -> Seq<char> {
        self.0@
    }
}

/// `s` names a web resource: it begins with `http://` or `https://`.
pub open spec fn names_web_resource(s: Seq<char>) -> bool {
    has_prefix(s, seq!['h', 't', 't', 'p', ':', '/', '/']) || has_prefix(
        s,
        seq!['h', 't', 't', 'p', 's', ':', '/', '/'],
    )
}

impl Resource {
    pub fn new(path: String) -> (r: Resource)
        ensures
            r@ == path@,
    {
        Resource(path)
    }

    /// The path or address, as given.
    pub fn as_str(&self) -> (r: &str)
        ensures
            r@ == self@,
    {
        self.0.as_str()
    }

    /// Tells whether the resource is to be downloaded.
    pub fn is_http(&self) -> (r: bool)
        ensures
            r == names_web_resource(self@),
    {
        proof {
            reveal_strlit("http://");
            reveal_strlit("https://");
        }
        starts_with(self.0.as_str(), "http://") || starts_with(self.0.as_str(), "https://")
    }

    /// Tells how the resource is fetched: from the web when its name begins
    /// with `http://` or `https://`, from a file otherwise.
    pub fn location(&self) -> (r: Location)
        ensures
            match r {
                Location::Web(u) => names_web_resource(self@) && u@ == self@,
                Location::Local(p) => !names_web_resource(self@) && p@ == self@,
            },
    {
        if self.is_http() {
            Location::Web(self.0.clone())
        } else {
            Location::Local(self.0.clone())
        }
    }
}

} // verus!
