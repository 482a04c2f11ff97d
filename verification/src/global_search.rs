//! The texts of search results.

use std::sync::Arc;
use vstd::prelude::*;
use vstd::string::*;
use vstd::utf8::{encode_utf8, is_char_boundary};

verus! {

/// How a search is done.
#[derive(Clone, Copy, PartialEq, Eq, Structural, Debug)]
pub struct SearchConfig {
    pub use_regex: bool,
    pub use_case_sensitivity: bool,
}

/// A line that matches. Its white space can be cut from the front without copying
/// the line.
#[derive(Debug)]
pub struct SharedMatchText {
    text: Arc<String>,
    start: usize,
}

impl SharedMatchText {
    /// The encoding of the whole line.
    pub closed spec fn line(&self) -> Seq<u8> {
        encode_utf8((*self.text)@)
    }

    /// How many bytes were cut.
    pub closed spec fn cut(&self) -> int {
        self.start as int
    }

    /// What is cut ends between two characters.
    pub open spec fn valid(&self) -> bool {
        is_char_boundary(self.line(), self.cut())
    }

    /// A line of which nothing is cut.
    pub fn new(text: String) -> (shared: SharedMatchText)
        ensures
            shared.line() == encode_utf8(text@),
            shared.cut() == 0,
            shared.valid(),
    {
        proof {
            vstd::utf8::encode_utf8_valid_utf8(text@);
            vstd::utf8::is_char_boundary_start_end_of_seq(encode_utf8(text@));
        }
        SharedMatchText { text: Arc::new(text), start: 0 }
    }

    /// Cuts bytes from the front.
    pub fn trim_leading_bytes(self, byte_count: usize) -> (shared: SharedMatchText)
        requires
            self.cut() + byte_count <= usize::MAX,
            is_char_boundary(self.line(), self.cut() + byte_count),
        ensures
            shared.line() == self.line(),
            shared.cut() == self.cut() + byte_count,
            shared.valid(),
    {
        SharedMatchText { text: self.text, start: self.start + byte_count }
    }

    /// What is left of the line.
    pub fn as_str(&self) -> (text: &str)
        requires
            self.valid(),
        ensures
            encode_utf8(text@) == self.line().skip(self.cut()),
    {
        let (_, rest) = self.text.as_str().split_at(self.start);
        assert(self.line().subrange(self.cut(), self.line().len() as int) =~= self.line().skip(
            self.cut(),
        ));
        rest
    }
}

} // verus!
