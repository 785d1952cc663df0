//! Terminal hyperlinks: a piece of text bound to a URL, rendered with the
//! OSC 8 escape sequence.
use vstd::prelude::*;

use crate::json::push_lit;

verus! {

/// Text that links to a URL when printed in a capable terminal.
pub struct Linked {
    url: String,
    text: String,
}

pub struct LinkedV {
    pub url: Seq<char>,
    pub text: Seq<char>,
}

impl View for Linked {
    type V = LinkedV;

    closed spec fn view(&self) -> LinkedV {
        LinkedV { url: self.url@, text: self.text@ }
    }
}

/// The escape sequence that makes `text` a link to `url`.
pub open spec fn hyperlink_text(url: Seq<char>, text: Seq<char>) -> Seq<char> {
    "\u{1b}]8;;"@ + url + "\u{1b}\\"@ + text + "\u{1b}]8;;\u{1b}\\"@
}

impl Linked {
    pub fn render(&self) -> (r: String)
        ensures
            r@ == hyperlink_text(self@.url, self@.text),
    {
        let mut out = String::new();
        push_lit(&mut out, "\u{1b}]8;;");
        push_lit(&mut out, self.url.as_str());
        push_lit(&mut out, "\u{1b}\\");
        push_lit(&mut out, self.text.as_str());
        push_lit(&mut out, "\u{1b}]8;;\u{1b}\\");
        proof {
            assert(out@ =~= hyperlink_text(self@.url, self@.text));
        }
        out
    }
}

/// Anything that can serve as the text of a hyperlink.
pub trait Link: Sized {
    spec fn text_view(&self) -> Seq<char>;

    fn link(self, url: String) -> (r: Linked)
        ensures
            r@.url == url@,
            r@.text == self.text_view(),
    ;
}

impl Link for String {
    open spec fn text_view(&self) -> Seq<char> {
        self@
    }

    fn link(self, url: String) -> (r: Linked) {
        Linked { url: url, text: self }
    }
}

impl<'a> Link for &'a str {
    open spec fn text_view(&self) -> Seq<char> {
        self@
    }

    fn link(self, url: String) -> (r: Linked) {
        Linked { url: url, text: self.to_owned() }
    }
}

} // verus!
