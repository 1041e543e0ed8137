//! The repository's general guarantees, stated and proved over the same
//! views and spec functions that the operations' contracts use.

use vstd::prelude::*;

use crate::comment::CommentView;
use crate::comment::update_comment_view;
use crate::post::PostView;
use crate::repository::update_post_view;

verus! {

/// Creation round-trip: for every field tuple, appending the post that
/// `create_post` builds from it and reading at the returned index (the old
/// post count) yields a post with exactly those fields and no comments.
pub proof fn lemma_create_read_round_trip(
    posts: Seq<PostView>,
    title: Seq<char>,
    author: Seq<char>,
    body: Seq<char>,
    labels: Seq<Seq<char>>,
)
    ensures
        ({
            let created = posts.push(
                (PostView {
                    title: title,
                    author: author,
                    body: body,
                    labels: labels,
                    comments: Seq::empty(),
                }),
            );
            &&& created.len() == posts.len() + 1
            &&& created[posts.len() as int].title == title
            &&& created[posts.len() as int].author == author
            &&& created[posts.len() as int].body == body
            &&& created[posts.len() as int].labels == labels
            &&& created[posts.len() as int].comments == Seq::<CommentView>::empty()
        }),
{
}

/// Update partiality: a partial update overwrites exactly the supplied
/// fields of the addressed post; absent fields, the author, and the
/// comments keep their prior values, and every other post is untouched.
pub proof fn lemma_update_post_partiality(
    posts: Seq<PostView>,
    i: int,
    title: Option<Seq<char>>,
    body: Option<Seq<char>>,
    labels: Option<Seq<Seq<char>>>,
)
    requires
        0 <= i < posts.len(),
    ensures
        ({
            let updated = posts.update(i, update_post_view(posts[i], title, body, labels));
            &&& updated.len() == posts.len()
            &&& (title matches Some(t) ==> updated[i].title == t)
            &&& (title is None ==> updated[i].title == posts[i].title)
            &&& (body matches Some(b) ==> updated[i].body == b)
            &&& (body is None ==> updated[i].body == posts[i].body)
            &&& (labels matches Some(l) ==> updated[i].labels == l)
            &&& (labels is None ==> updated[i].labels == posts[i].labels)
            &&& updated[i].author == posts[i].author
            &&& updated[i].comments == posts[i].comments
            &&& forall|j: int| 0 <= j < posts.len() && j != i ==> updated[j] == posts[j]
        }),
{
}

/// Deletion reindexing: deleting the post at index `i` moves every post
/// previously at an index `j > i` to index `j - 1` and leaves every post
/// before `i` where it was.  (That the removed value equals the pre-deletion
/// content at `i` is part of `delete_post`'s own contract.)
pub proof fn lemma_delete_post_reindexing(posts: Seq<PostView>, i: int)
    requires
        0 <= i < posts.len(),
    ensures
        ({
            let remaining = posts.remove(i);
            &&& remaining.len() == posts.len() - 1
            &&& forall|j: int| 0 <= j < i ==> remaining[j] == posts[j]
            &&& forall|j: int| i < j < posts.len() ==> remaining[j - 1] == posts[j]
        }),
{
}

/// Comment author immutability: a body update is the only operation that
/// rewrites an existing comment, and it keeps every comment's author — the
/// addressed comment gets exactly the new body, every other comment is
/// untouched.
pub proof fn lemma_update_comment_keeps_authors(
    comments: Seq<CommentView>,
    i: int,
    body: Seq<char>,
)
    requires
        0 <= i < comments.len(),
    ensures
        ({
            let updated = comments.update(i, update_comment_view(comments[i], body));
            &&& updated.len() == comments.len()
            &&& forall|j: int|
                0 <= j < comments.len() ==> updated[j].author == comments[j].author
            &&& updated[i].body == body
            &&& forall|j: int| 0 <= j < comments.len() && j != i ==> updated[j] == comments[j]
        }),
{
}

} // verus!
