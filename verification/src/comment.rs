//! Comments: authored texts attached to exactly one post.

use vstd::prelude::*;

verus! {

/// A comment on a post.  The author is fixed at creation — altering
/// attribution after the fact is semantically invalid, so no operation
/// changes it — while the body may be rewritten.
#[derive(Debug, PartialEq)]
pub struct Comment {
    pub author: String,
    pub body: String,
}

/// The mathematical value of a `Comment`: both text fields as character
/// sequences.
#[verifier::ext_equal]
pub ghost struct CommentView {
    pub author: Seq<char>,
    pub body: Seq<char>,
}

impl View for Comment {
    type V = CommentView;

    open spec fn view(&self) -> CommentView {
        CommentView { author: self.author@, body: self.body@ }
    }
}

/// The comment after a body update: the author is kept, only the body is
/// replaced.
pub open spec fn update_comment_view(c: CommentView, body: Seq<char>) -> CommentView {
    CommentView { author: c.author, body: body }
}

} // verus!
