//! Posts: titled, authored, labeled records, each owning an ordered sequence
//! of comments addressed by zero-based position.

use vstd::prelude::*;

use crate::comment::Comment;
use crate::comment::CommentView;
use crate::comment::update_comment_view;
use crate::error::BlogError;

verus! {

/// A post.  The author is fixed at creation; title, body, and labels may be
/// rewritten.  Comment indices are positions, not stable identifiers:
/// deleting a comment shifts every later comment down by one.
#[derive(Debug, PartialEq)]
pub struct Post {
    pub title: String,
    pub author: String,
    pub body: String,
    pub labels: Vec<String>,
    pub comments: Vec<Comment>,
}

/// The mathematical value of a `Post`: each text field as a character
/// sequence, the labels and comments as sequences of their values.
#[verifier::ext_equal]
pub ghost struct PostView {
    pub title: Seq<char>,
    pub author: Seq<char>,
    pub body: Seq<char>,
    pub labels: Seq<Seq<char>>,
    pub comments: Seq<CommentView>,
}

impl View for Post {
    type V = PostView;

    open spec fn view(&self) -> PostView {
        PostView {
            title: self.title@,
            author: self.author@,
            body: self.body@,
            labels: Seq::new(self.labels@.len(), |i: int| self.labels@[i]@),
            comments: Seq::new(self.comments@.len(), |i: int| self.comments@[i]@),
        }
    }
}

impl Post {
    /// Appends a comment with the given author and body and returns its
    /// index.  Always succeeds; no other field of the post changes.
    pub fn create_comment(&mut self, author: &str, body: &str) -> (r: usize)
        ensures
            r == old(self)@.comments.len(),
            final(self)@ == (PostView {
                comments: old(self)@.comments.push(
                    CommentView { author: author@, body: body@ },
                ),
                ..old(self)@
            }),
    {
        let r = self.comments.len();
        let new_comment = Comment { author: String::from_str(author), body: String::from_str(body) };
        self.comments.push(new_comment);
        proof {
            assert(self@ =~~= (PostView {
                comments: old(self)@.comments.push(
                    CommentView { author: author@, body: body@ },
                ),
                ..old(self)@
            }));
        }
        r
    }

    /// Returns a read-only view of the comment at `comment_index`, or
    /// `OutOfRange` exactly when the index is not below the comment count.
    pub fn read_comment(&self, comment_index: usize) -> (r: Result<&Comment, BlogError>)
        ensures
            match r {
                Ok(c) => comment_index < self@.comments.len()
                    && c@ == self@.comments[comment_index as int],
                Err(e) => comment_index >= self@.comments.len()
                    && e == BlogError::OutOfRange,
            },
    {
        if comment_index < self.comments.len() {
            Ok(&self.comments[comment_index])
        } else {
            Err(BlogError::OutOfRange)
        }
    }

    /// Overwrites the body of the comment at `comment_index`, keeping its
    /// author, or fails with `OutOfRange` exactly when the index is not
    /// below the comment count, leaving the post unchanged.
    pub fn update_comment(&mut self, comment_index: usize, body: &str) -> (r: Result<
        (),
        BlogError,
    >)
        ensures
            match r {
                Ok(_) => comment_index < old(self)@.comments.len()
                    && final(self)@ == (PostView {
                        comments: old(self)@.comments.update(
                            comment_index as int,
                            update_comment_view(
                                old(self)@.comments[comment_index as int],
                                body@,
                            ),
                        ),
                        ..old(self)@
                    }),
                Err(e) => comment_index >= old(self)@.comments.len()
                    && *final(self) == *old(self)
                    && e == BlogError::OutOfRange,
            },
    {
        if comment_index >= self.comments.len() {
            return Err(BlogError::OutOfRange);
        }
        let new_body = String::from_str(body);
        self.comments[comment_index].body = new_body;
        proof {
            assert(self@ =~~= (PostView {
                comments: old(self)@.comments.update(
                    comment_index as int,
                    update_comment_view(old(self)@.comments[comment_index as int], body@),
                ),
                ..old(self)@
            }));
        }
        Ok(())
    }

    /// Removes and returns the comment at `comment_index`, shifting every
    /// later comment down by one, or fails with `OutOfRange` exactly when
    /// the index is not below the comment count, leaving the post unchanged.
    pub fn delete_comment(&mut self, comment_index: usize) -> (r: Result<Comment, BlogError>)
        ensures
            match r {
                Ok(c) => comment_index < old(self)@.comments.len()
                    && c@ == old(self)@.comments[comment_index as int]
                    && final(self)@ == (PostView {
                        comments: old(self)@.comments.remove(comment_index as int),
                        ..old(self)@
                    }),
                Err(e) => comment_index >= old(self)@.comments.len()
                    && *final(self) == *old(self)
                    && e == BlogError::OutOfRange,
            },
    {
        if comment_index >= self.comments.len() {
            return Err(BlogError::OutOfRange);
        }
        let removed = self.comments.remove(comment_index);
        proof {
            assert(self@ =~~= (PostView {
                comments: old(self)@.comments.remove(comment_index as int),
                ..old(self)@
            }));
        }
        Ok(removed)
    }
}

} // verus!
