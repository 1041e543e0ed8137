//! The repository: the top-level owner of an ordered sequence of posts,
//! addressed by zero-based position, with creation, reading, updating,
//! deletion, and substring search across both levels.

use vstd::prelude::*;

use crate::comment::CommentView;
use crate::comment::update_comment_view;
use crate::error::BlogError;
use crate::post::Post;
use crate::post::PostView;
use crate::search::comment_author_sel;
use crate::search::comment_body_sel;
use crate::search::comment_hits;
use crate::search::comment_hits_in_post;
use crate::search::label_hit_count;
use crate::search::label_hits;
use crate::search::lemma_comment_hits_in_post_step;
use crate::search::lemma_comment_hits_step;
use crate::search::lemma_label_hit_count_step;
use crate::search::lemma_label_hits_step;
use crate::search::lemma_post_hits_step;
use crate::search::post_author_sel;
use crate::search::post_body_sel;
use crate::search::post_hits;
use crate::search::post_title_sel;
use crate::text::contains_substr;
use crate::text::str_contains;

verus! {

/// The blog repository.  Posts are appended on creation, mutated in place by
/// updates, and removed by deletion, which shifts every later index down by
/// one; indices are ephemeral positions, not durable identifiers.
#[derive(Debug)]
pub struct Blog {
    pub posts: Vec<Post>,
}

impl View for Blog {
    type V = Seq<PostView>;

    open spec fn view(&self) -> Seq<PostView> {
        Seq::new(self.posts@.len(), |i: int| self.posts@[i]@)
    }
}

/// The labels a new post starts with: the supplied ones, or none.
pub open spec fn initial_labels(labels_opt: Option<Vec<String>>) -> Seq<Seq<char>> {
    match labels_opt {
        Some(l) => Seq::new(l@.len(), |i: int| l@[i]@),
        None => Seq::empty(),
    }
}

/// An optional replacement text, as an optional character sequence.
pub open spec fn opt_text_view(o: Option<String>) -> Option<Seq<char>> {
    match o {
        Some(s) => Some(s@),
        None => None,
    }
}

/// An optional replacement label sequence, as optional character sequences.
pub open spec fn opt_labels_view(o: Option<Vec<String>>) -> Option<Seq<Seq<char>>> {
    match o {
        Some(l) => Some(Seq::new(l@.len(), |i: int| l@[i]@)),
        None => None,
    }
}

/// The post after a partial update: each supplied field overwrites the old
/// one; absent fields, the author, and the comments are left unchanged.
pub open spec fn update_post_view(
    p: PostView,
    title: Option<Seq<char>>,
    body: Option<Seq<char>>,
    labels: Option<Seq<Seq<char>>>,
) -> PostView {
    PostView {
        title: match title {
            Some(t) => t,
            None => p.title,
        },
        author: p.author,
        body: match body {
            Some(b) => b,
            None => p.body,
        },
        labels: match labels {
            Some(l) => l,
            None => p.labels,
        },
        comments: p.comments,
    }
}

impl Blog {
    /// Appends a post with the given fields and no comments, and returns its
    /// index.  Always succeeds; labels default to an empty sequence.
    pub fn create_post(
        &mut self,
        title: String,
        author: String,
        body: String,
        labels_opt: Option<Vec<String>>,
    ) -> (r: usize)
        ensures
            r == old(self)@.len(),
            final(self)@ == old(self)@.push(
                (PostView {
                    title: title@,
                    author: author@,
                    body: body@,
                    labels: initial_labels(labels_opt),
                    comments: Seq::empty(),
                }),
            ),
    {
        let r = self.posts.len();
        let new_post = Post {
            title: title,
            author: author,
            body: body,
            labels: match labels_opt {
                Some(l) => l,
                None => Vec::new(),
            },
            comments: Vec::new(),
        };
        self.posts.push(new_post);
        proof {
            assert(self@ =~~= old(self)@.push(
                (PostView {
                    title: title@,
                    author: author@,
                    body: body@,
                    labels: initial_labels(labels_opt),
                    comments: Seq::empty(),
                }),
            ));
        }
        r
    }

    /// Returns a read-only view of the post at `post_index`, or `OutOfRange`
    /// exactly when the index is not below the post count.
    pub fn read_post(&self, post_index: usize) -> (r: Result<&Post, BlogError>)
        ensures
            match r {
                Ok(p) => post_index < self@.len() && p@ == self@[post_index as int],
                Err(e) => post_index >= self@.len() && e == BlogError::OutOfRange,
            },
    {
        if post_index < self.posts.len() {
            Ok(&self.posts[post_index])
        } else {
            Err(BlogError::OutOfRange)
        }
    }

    /// Returns a mutable view of the post at `post_index`, for callers that
    /// need finer control than `update_post`, or `OutOfRange` exactly when
    /// the index is not below the post count.  The repository afterwards
    /// holds whatever the caller made of the borrowed post, at the same
    /// index.
    pub fn get_post(&mut self, post_index: usize) -> (r: Result<&mut Post, BlogError>)
        ensures
            match r {
                Ok(p) => post_index < old(self)@.len()
                    && *p == old(self).posts@[post_index as int]
                    && final(self).posts@ == old(self).posts@.update(post_index as int, *final(p))
                    && final(self)@ =~= old(self)@.update(post_index as int, (*final(p))@),
                Err(e) => post_index >= old(self)@.len()
                    && *final(self) == *old(self)
                    && e == BlogError::OutOfRange,
            },
    {
        if post_index < self.posts.len() {
            Ok(&mut self.posts[post_index])
        } else {
            Err(BlogError::OutOfRange)
        }
    }

    /// Overwrites each supplied field of the post at `post_index`, leaving
    /// absent fields, the author, and the comments unchanged, or fails with
    /// `OutOfRange` exactly when the index is not below the post count,
    /// leaving the repository unchanged.
    pub fn update_post(
        &mut self,
        post_index: usize,
        title: Option<String>,
        body: Option<String>,
        labels: Option<Vec<String>>,
    ) -> (r: Result<(), BlogError>)
        ensures
            match r {
                Ok(_) => post_index < old(self)@.len() && final(self)@ == old(self)@.update(
                    post_index as int,
                    update_post_view(
                        old(self)@[post_index as int],
                        opt_text_view(title),
                        opt_text_view(body),
                        opt_labels_view(labels),
                    ),
                ),
                Err(e) => post_index >= old(self)@.len()
                    && *final(self) == *old(self)
                    && e == BlogError::OutOfRange,
            },
    {
        if post_index >= self.posts.len() {
            return Err(BlogError::OutOfRange);
        }
        if let Some(t) = title {
            self.posts[post_index].title = t;
        }
        if let Some(b) = body {
            self.posts[post_index].body = b;
        }
        if let Some(l) = labels {
            self.posts[post_index].labels = l;
        }
        proof {
            assert(self@ =~~= old(self)@.update(
                post_index as int,
                update_post_view(
                    old(self)@[post_index as int],
                    opt_text_view(title),
                    opt_text_view(body),
                    opt_labels_view(labels),
                ),
            ));
        }
        Ok(())
    }

    /// Removes and returns the post at `post_index`, shifting every later
    /// post down by one, or fails with `OutOfRange` exactly when the index
    /// is not below the post count, leaving the repository unchanged.
    pub fn delete_post(&mut self, post_index: usize) -> (r: Result<Post, BlogError>)
        ensures
            match r {
                Ok(p) => post_index < old(self)@.len()
                    && p == old(self).posts@[post_index as int]
                    && p@ == old(self)@[post_index as int]
                    && final(self)@ == old(self)@.remove(post_index as int),
                Err(e) => post_index >= old(self)@.len()
                    && *final(self) == *old(self)
                    && e == BlogError::OutOfRange,
            },
    {
        if post_index >= self.posts.len() {
            return Err(BlogError::OutOfRange);
        }
        let removed = self.posts.remove(post_index);
        proof {
            assert(self@ =~~= old(self)@.remove(post_index as int));
        }
        Ok(removed)
    }

    /// Appends a comment with the given author and body to the post at
    /// `post_index` and returns the comment's index within that post, or
    /// fails with `OutOfRange` exactly when the post index is not below the
    /// post count, leaving the repository unchanged.
    pub fn create_comment(&mut self, post_index: usize, author: String, body: String) -> (r:
        Result<usize, BlogError>)
        ensures
            match r {
                Ok(k) => post_index < old(self)@.len()
                    && k == old(self)@[post_index as int].comments.len()
                    && final(self)@ == old(self)@.update(
                    post_index as int,
                    (PostView {
                        comments: old(self)@[post_index as int].comments.push(
                            (CommentView { author: author@, body: body@ }),
                        ),
                        ..old(self)@[post_index as int]
                    }),
                ),
                Err(e) => post_index >= old(self)@.len()
                    && *final(self) == *old(self)
                    && e == BlogError::OutOfRange,
            },
    {
        if post_index >= self.posts.len() {
            return Err(BlogError::OutOfRange);
        }
        let k = self.posts[post_index].create_comment(author.as_str(), body.as_str());
        proof {
            assert(self@ =~~= old(self)@.update(
                post_index as int,
                (PostView {
                    comments: old(self)@[post_index as int].comments.push(
                        (CommentView { author: author@, body: body@ }),
                    ),
                    ..old(self)@[post_index as int]
                }),
            ));
        }
        Ok(k)
    }

    /// Overwrites the body of the comment at `comment_index` within the post
    /// at `post_index`, keeping the comment's author, or fails with
    /// `OutOfRange` exactly when either index is not below its sequence's
    /// length, leaving the repository unchanged.
    pub fn update_comment(&mut self, post_index: usize, comment_index: usize, body: String) -> (r:
        Result<(), BlogError>)
        ensures
            match r {
                Ok(_) => post_index < old(self)@.len()
                    && comment_index < old(self)@[post_index as int].comments.len()
                    && final(self)@ == old(self)@.update(
                    post_index as int,
                    (PostView {
                        comments: old(self)@[post_index as int].comments.update(
                            comment_index as int,
                            update_comment_view(
                                old(self)@[post_index as int].comments[comment_index as int],
                                body@,
                            ),
                        ),
                        ..old(self)@[post_index as int]
                    }),
                ),
                Err(e) => (post_index >= old(self)@.len() || comment_index >= old(
                    self,
                )@[post_index as int].comments.len())
                    && *final(self) == *old(self)
                    && e == BlogError::OutOfRange,
            },
    {
        if post_index >= self.posts.len() {
            return Err(BlogError::OutOfRange);
        }
        if comment_index >= self.posts[post_index].comments.len() {
            return Err(BlogError::OutOfRange);
        }
        match self.posts[post_index].update_comment(comment_index, body.as_str()) {
            Ok(_) => {
                proof {
                    assert(self@ =~~= old(self)@.update(
                        post_index as int,
                        (PostView {
                            comments: old(self)@[post_index as int].comments.update(
                                comment_index as int,
                                update_comment_view(
                                    old(self)@[post_index as int].comments[comment_index as int],
                                    body@,
                                ),
                            ),
                            ..old(self)@[post_index as int]
                        }),
                    ));
                }
                Ok(())
            },
            Err(e) => Err(e),
        }
    }

    /// Linear scan for an author: returns the indices of the posts whose
    /// author contains `author`, and the `(post, comment)` index pairs of
    /// the comments whose author contains `author`.  The two result sets are
    /// independent; both are in ascending scan order.
    pub fn search_by_author(&self, author: &str) -> (r: (Vec<usize>, Vec<(usize, usize)>))
        ensures
            r.0@ == post_hits(self@, author@, post_author_sel()),
            r.1@ == comment_hits(self@, author@, comment_author_sel()),
    {
        let mut post_matches: Vec<usize> = Vec::new();
        let mut comment_matches: Vec<(usize, usize)> = Vec::new();
        let n = self.posts.len();
        let mut post_index: usize = 0;
        while post_index < n
            invariant
                n == self.posts@.len(),
                post_index <= n,
                post_matches@ == post_hits(self@.take(post_index as int), author@, post_author_sel()),
                comment_matches@ == comment_hits(
                    self@.take(post_index as int),
                    author@,
                    comment_author_sel(),
                ),
            decreases n - post_index,
        {
            let ghost prev = post_matches@;
            if str_contains(self.posts[post_index].author.as_str(), author) {
                post_matches.push(post_index);
            }
            proof {
                lemma_post_hits_step(self@, author@, post_author_sel(), post_index as int);
                if contains_substr(self@[post_index as int].author, author@) {
                    assert(post_matches@ =~= prev + seq![post_index]);
                } else {
                    assert(post_matches@ =~= prev + Seq::<usize>::empty());
                }
            }
            let m = self.posts[post_index].comments.len();
            let ghost base = comment_matches@;
            let mut ci: usize = 0;
            while ci < m
                invariant
                    n == self.posts@.len(),
                    post_index < n,
                    m == self@[post_index as int].comments.len(),
                    ci <= m,
                    base == comment_hits(
                        self@.take(post_index as int),
                        author@,
                        comment_author_sel(),
                    ),
                    comment_matches@ == base + comment_hits_in_post(
                        self@[post_index as int].comments.take(ci as int),
                        post_index,
                        author@,
                        comment_author_sel(),
                    ),
                decreases m - ci,
            {
                let ghost cprev = comment_matches@;
                if str_contains(self.posts[post_index].comments[ci].author.as_str(), author) {
                    comment_matches.push((post_index, ci));
                }
                proof {
                    lemma_comment_hits_in_post_step(
                        self@[post_index as int].comments,
                        post_index,
                        author@,
                        comment_author_sel(),
                        ci as int,
                    );
                    if contains_substr(self@[post_index as int].comments[ci as int].author, author@) {
                        assert(comment_matches@ =~= cprev + seq![(post_index, ci)]);
                    } else {
                        assert(comment_matches@ =~= cprev + Seq::<(usize, usize)>::empty());
                    }
                    assert(comment_matches@ =~= base + comment_hits_in_post(
                        self@[post_index as int].comments.take(ci as int + 1),
                        post_index,
                        author@,
                        comment_author_sel(),
                    ));
                }
                ci += 1;
            }
            proof {
                assert(self@[post_index as int].comments.take(m as int) =~= self@[post_index as int].comments);
                lemma_comment_hits_step(self@, author@, comment_author_sel(), post_index as int);
            }
            post_index += 1;
        }
        proof {
            assert(self@.take(n as int) =~= self@);
        }
        (post_matches, comment_matches)
    }

    /// Linear scan for a title: returns the indices, in ascending order, of
    /// the posts whose title contains `title`.
    pub fn search_by_title(&self, title: &str) -> (r: Vec<usize>)
        ensures
            r@ == post_hits(self@, title@, post_title_sel()),
    {
        let mut post_matches: Vec<usize> = Vec::new();
        let n = self.posts.len();
        let mut post_index: usize = 0;
        while post_index < n
            invariant
                n == self.posts@.len(),
                post_index <= n,
                post_matches@ == post_hits(self@.take(post_index as int), title@, post_title_sel()),
            decreases n - post_index,
        {
            let ghost prev = post_matches@;
            if str_contains(self.posts[post_index].title.as_str(), title) {
                post_matches.push(post_index);
            }
            proof {
                lemma_post_hits_step(self@, title@, post_title_sel(), post_index as int);
                if contains_substr(self@[post_index as int].title, title@) {
                    assert(post_matches@ =~= prev + seq![post_index]);
                } else {
                    assert(post_matches@ =~= prev + Seq::<usize>::empty());
                }
            }
            post_index += 1;
        }
        proof {
            assert(self@.take(n as int) =~= self@);
        }
        post_matches
    }

    /// Linear scan for a label: returns the indices, in ascending order, of
    /// the posts having at least one label that contains `label`, with each
    /// index repeated once per matching label of that post.
    pub fn search_by_label(&self, label: &str) -> (r: Vec<usize>)
        ensures
            r@ == label_hits(self@, label@),
    {
        let mut post_matches: Vec<usize> = Vec::new();
        let n = self.posts.len();
        let mut post_index: usize = 0;
        while post_index < n
            invariant
                n == self.posts@.len(),
                post_index <= n,
                post_matches@ == label_hits(self@.take(post_index as int), label@),
            decreases n - post_index,
        {
            let ghost base = post_matches@;
            let m = self.posts[post_index].labels.len();
            let mut li: usize = 0;
            while li < m
                invariant
                    n == self.posts@.len(),
                    post_index < n,
                    m == self@[post_index as int].labels.len(),
                    li <= m,
                    base == label_hits(self@.take(post_index as int), label@),
                    post_matches@ == base + Seq::new(
                        label_hit_count(self@[post_index as int].labels.take(li as int), label@),
                        |k: int| post_index,
                    ),
                decreases m - li,
            {
                if str_contains(self.posts[post_index].labels[li].as_str(), label) {
                    post_matches.push(post_index);
                }
                proof {
                    lemma_label_hit_count_step(self@[post_index as int].labels, label@, li as int);
                    assert(post_matches@ =~= base + Seq::new(
                        label_hit_count(
                            self@[post_index as int].labels.take(li as int + 1),
                            label@,
                        ),
                        |k: int| post_index,
                    ));
                }
                li += 1;
            }
            proof {
                assert(self@[post_index as int].labels.take(m as int) =~= self@[post_index as int].labels);
                lemma_label_hits_step(self@, label@, post_index as int);
                assert(post_matches@ =~= label_hits(self@.take(post_index as int + 1), label@));
            }
            post_index += 1;
        }
        proof {
            assert(self@.take(n as int) =~= self@);
        }
        post_matches
    }

    /// Linear scan for body text: returns the indices of the posts whose
    /// body contains `text`, and the `(post, comment)` index pairs of the
    /// comments whose body contains `text`.  The two result sets are
    /// independent; both are in ascending scan order.
    pub fn search_by_body(&self, text: &str) -> (r: (Vec<usize>, Vec<(usize, usize)>))
        ensures
            r.0@ == post_hits(self@, text@, post_body_sel()),
            r.1@ == comment_hits(self@, text@, comment_body_sel()),
    {
        let mut post_matches: Vec<usize> = Vec::new();
        let mut comment_matches: Vec<(usize, usize)> = Vec::new();
        let n = self.posts.len();
        let mut post_index: usize = 0;
        while post_index < n
            invariant
                n == self.posts@.len(),
                post_index <= n,
                post_matches@ == post_hits(self@.take(post_index as int), text@, post_body_sel()),
                comment_matches@ == comment_hits(
                    self@.take(post_index as int),
                    text@,
                    comment_body_sel(),
                ),
            decreases n - post_index,
        {
            let ghost prev = post_matches@;
            if str_contains(self.posts[post_index].body.as_str(), text) {
                post_matches.push(post_index);
            }
            proof {
                lemma_post_hits_step(self@, text@, post_body_sel(), post_index as int);
                if contains_substr(self@[post_index as int].body, text@) {
                    assert(post_matches@ =~= prev + seq![post_index]);
                } else {
                    assert(post_matches@ =~= prev + Seq::<usize>::empty());
                }
            }
            let m = self.posts[post_index].comments.len();
            let ghost base = comment_matches@;
            let mut ci: usize = 0;
            while ci < m
                invariant
                    n == self.posts@.len(),
                    post_index < n,
                    m == self@[post_index as int].comments.len(),
                    ci <= m,
                    base == comment_hits(self@.take(post_index as int), text@, comment_body_sel()),
                    comment_matches@ == base + comment_hits_in_post(
                        self@[post_index as int].comments.take(ci as int),
                        post_index,
                        text@,
                        comment_body_sel(),
                    ),
                decreases m - ci,
            {
                let ghost cprev = comment_matches@;
                if str_contains(self.posts[post_index].comments[ci].body.as_str(), text) {
                    comment_matches.push((post_index, ci));
                }
                proof {
                    lemma_comment_hits_in_post_step(
                        self@[post_index as int].comments,
                        post_index,
                        text@,
                        comment_body_sel(),
                        ci as int,
                    );
                    if contains_substr(self@[post_index as int].comments[ci as int].body, text@) {
                        assert(comment_matches@ =~= cprev + seq![(post_index, ci)]);
                    } else {
                        assert(comment_matches@ =~= cprev + Seq::<(usize, usize)>::empty());
                    }
                    assert(comment_matches@ =~= base + comment_hits_in_post(
                        self@[post_index as int].comments.take(ci as int + 1),
                        post_index,
                        text@,
                        comment_body_sel(),
                    ));
                }
                ci += 1;
            }
            proof {
                assert(self@[post_index as int].comments.take(m as int) =~= self@[post_index as int].comments);
                lemma_comment_hits_step(self@, text@, comment_body_sel(), post_index as int);
            }
            post_index += 1;
        }
        proof {
            assert(self@.take(n as int) =~= self@);
        }
        (post_matches, comment_matches)
    }
}

} // verus!
