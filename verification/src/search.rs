//! The meaning of the search operations: for each search, the exact sequence
//! of indices (or index pairs) that a full linear scan in ascending order
//! produces, stated as recursive functions over the repository's view.

use vstd::prelude::*;

use crate::comment::CommentView;
use crate::post::PostView;
use crate::text::contains_substr;

verus! {

/// The author field of a post, as a selector for `post_hits`.
pub open spec fn post_author_sel() -> spec_fn(PostView) -> Seq<char> {
    |p: PostView| p.author
}

/// The title field of a post, as a selector for `post_hits`.
pub open spec fn post_title_sel() -> spec_fn(PostView) -> Seq<char> {
    |p: PostView| p.title
}

/// The body field of a post, as a selector for `post_hits`.
pub open spec fn post_body_sel() -> spec_fn(PostView) -> Seq<char> {
    |p: PostView| p.body
}

/// The author field of a comment, as a selector for `comment_hits`.
pub open spec fn comment_author_sel() -> spec_fn(CommentView) -> Seq<char> {
    |c: CommentView| c.author
}

/// The body field of a comment, as a selector for `comment_hits`.
pub open spec fn comment_body_sel() -> spec_fn(CommentView) -> Seq<char> {
    |c: CommentView| c.body
}

/// The indices, in ascending order, of the posts whose field selected by
/// `sel` contains `needle`.
pub open spec fn post_hits(
    posts: Seq<PostView>,
    needle: Seq<char>,
    sel: spec_fn(PostView) -> Seq<char>,
) -> Seq<usize>
    decreases posts.len(),
{
    if posts.len() == 0 {
        Seq::empty()
    } else {
        post_hits(posts.drop_last(), needle, sel) + (
        if contains_substr(sel(posts.last()), needle) {
            seq![(posts.len() - 1) as usize]
        } else {
            Seq::empty()
        })
    }
}

/// The `(post, comment)` index pairs, in ascending comment order, that the
/// comments of a single post at index `post_index` contribute: those whose
/// field selected by `sel` contains `needle`.
pub open spec fn comment_hits_in_post(
    comments: Seq<CommentView>,
    post_index: usize,
    needle: Seq<char>,
    sel: spec_fn(CommentView) -> Seq<char>,
) -> Seq<(usize, usize)>
    decreases comments.len(),
{
    if comments.len() == 0 {
        Seq::empty()
    } else {
        comment_hits_in_post(comments.drop_last(), post_index, needle, sel) + (
        if contains_substr(sel(comments.last()), needle) {
            seq![(post_index, (comments.len() - 1) as usize)]
        } else {
            Seq::empty()
        })
    }
}

/// All `(post, comment)` index pairs whose comment field selected by `sel`
/// contains `needle`, ordered by ascending post index, then ascending
/// comment index.
pub open spec fn comment_hits(
    posts: Seq<PostView>,
    needle: Seq<char>,
    sel: spec_fn(CommentView) -> Seq<char>,
) -> Seq<(usize, usize)>
    decreases posts.len(),
{
    if posts.len() == 0 {
        Seq::empty()
    } else {
        comment_hits(posts.drop_last(), needle, sel) + comment_hits_in_post(
            posts.last().comments,
            (posts.len() - 1) as usize,
            needle,
            sel,
        )
    }
}

/// How many of the given labels contain `needle`.
pub open spec fn label_hit_count(labels: Seq<Seq<char>>, needle: Seq<char>) -> nat
    decreases labels.len(),
{
    if labels.len() == 0 {
        0nat
    } else {
        label_hit_count(labels.drop_last(), needle) + (
        if contains_substr(labels.last(), needle) {
            1nat
        } else {
            0nat
        })
    }
}

/// The label-search result: each post's index, in ascending order, repeated
/// once per label of that post that contains `needle` — a post with several
/// matching labels appears once per matching label, not once.
pub open spec fn label_hits(posts: Seq<PostView>, needle: Seq<char>) -> Seq<usize>
    decreases posts.len(),
{
    if posts.len() == 0 {
        Seq::empty()
    } else {
        label_hits(posts.drop_last(), needle) + Seq::new(
            label_hit_count(posts.last().labels, needle),
            |k: int| (posts.len() - 1) as usize,
        )
    }
}

/// What the post-level hit sequence means: every entry is the index of a
/// post whose selected field contains the needle, every such post's index is
/// an entry, and the entries are strictly ascending (so each matching post
/// appears exactly once).
pub proof fn lemma_post_hits_characterization(
    posts: Seq<PostView>,
    needle: Seq<char>,
    sel: spec_fn(PostView) -> Seq<char>,
)
    requires
        posts.len() <= usize::MAX,
    ensures
        ({
            let hits = post_hits(posts, needle, sel);
            &&& forall|k: int|
                0 <= k < hits.len() ==> hits[k] < posts.len() && contains_substr(
                    sel(posts[hits[k] as int]),
                    needle,
                )
            &&& forall|i: int|
                0 <= i < posts.len() && contains_substr(sel(posts[i]), needle)
                    ==> hits.contains(i as usize)
            &&& forall|k1: int, k2: int|
                0 <= k1 < k2 < hits.len() ==> hits[k1] < hits[k2]
        }),
    decreases posts.len(),
{
    if posts.len() > 0 {
        let prefix = posts.drop_last();
        lemma_post_hits_characterization(prefix, needle, sel);
        let hits = post_hits(posts, needle, sel);
        let prefix_hits = post_hits(prefix, needle, sel);
        assert(forall|i: int| 0 <= i < prefix.len() ==> prefix[i] == posts[i]);
        assert(forall|i: int|
            0 <= i < posts.len() && contains_substr(sel(posts[i]), needle) ==> hits.contains(
                i as usize,
            )) by {
            assert forall|i: int|
                0 <= i < posts.len() && contains_substr(sel(posts[i]), needle) implies hits.contains(
                i as usize,
            ) by {
                if i < posts.len() - 1 {
                    assert(prefix_hits.contains(i as usize));
                    let k = choose|k: int|
                        0 <= k < prefix_hits.len() && prefix_hits[k] == i as usize;
                    assert(hits[k] == i as usize);
                } else {
                    assert(hits.last() == (posts.len() - 1) as usize);
                }
            }
        }
    }
}

/// What one post's comment-level hit sequence means: every entry pairs this
/// post's index with the index of a comment whose selected field contains
/// the needle, every such comment's index appears, and the comment indices
/// are strictly ascending.
pub proof fn lemma_comment_hits_in_post_characterization(
    comments: Seq<CommentView>,
    post_index: usize,
    needle: Seq<char>,
    sel: spec_fn(CommentView) -> Seq<char>,
)
    requires
        comments.len() <= usize::MAX,
    ensures
        ({
            let hits = comment_hits_in_post(comments, post_index, needle, sel);
            &&& forall|k: int|
                0 <= k < hits.len() ==> hits[k].0 == post_index && hits[k].1 < comments.len()
                    && contains_substr(sel(comments[hits[k].1 as int]), needle)
            &&& forall|i: int|
                0 <= i < comments.len() && contains_substr(sel(comments[i]), needle)
                    ==> hits.contains((post_index, i as usize))
            &&& forall|k1: int, k2: int|
                0 <= k1 < k2 < hits.len() ==> hits[k1].1 < hits[k2].1
        }),
    decreases comments.len(),
{
    if comments.len() > 0 {
        let prefix = comments.drop_last();
        lemma_comment_hits_in_post_characterization(prefix, post_index, needle, sel);
        let hits = comment_hits_in_post(comments, post_index, needle, sel);
        let prefix_hits = comment_hits_in_post(prefix, post_index, needle, sel);
        assert(forall|i: int| 0 <= i < prefix.len() ==> prefix[i] == comments[i]);
        assert(forall|i: int|
            0 <= i < comments.len() && contains_substr(sel(comments[i]), needle) ==> hits.contains(
                (post_index, i as usize),
            )) by {
            assert forall|i: int|
                0 <= i < comments.len() && contains_substr(
                    sel(comments[i]),
                    needle,
                ) implies hits.contains((post_index, i as usize)) by {
                if i < comments.len() - 1 {
                    assert(prefix_hits.contains((post_index, i as usize)));
                    let k = choose|k: int|
                        0 <= k < prefix_hits.len() && prefix_hits[k] == (post_index, i as usize);
                    assert(hits[k] == (post_index, i as usize));
                } else {
                    assert(hits.last() == (post_index, (comments.len() - 1) as usize));
                }
            }
        }
    }
}

/// What the whole comment-level hit sequence means: every entry names an
/// existing comment whose selected field contains the needle, every such
/// comment is named, and the entries ascend by post index, then by comment
/// index.
pub proof fn lemma_comment_hits_characterization(
    posts: Seq<PostView>,
    needle: Seq<char>,
    sel: spec_fn(CommentView) -> Seq<char>,
)
    requires
        posts.len() <= usize::MAX,
        forall|i: int| 0 <= i < posts.len() ==> posts[i].comments.len() <= usize::MAX,
    ensures
        ({
            let hits = comment_hits(posts, needle, sel);
            &&& forall|k: int|
                0 <= k < hits.len() ==> hits[k].0 < posts.len()
                    && hits[k].1 < posts[hits[k].0 as int].comments.len()
                    && contains_substr(
                    sel(posts[hits[k].0 as int].comments[hits[k].1 as int]),
                    needle,
                )
            &&& forall|i: int, j: int|
                0 <= i < posts.len() && 0 <= j < posts[i].comments.len() && contains_substr(
                    sel(posts[i].comments[j]),
                    needle,
                ) ==> hits.contains((i as usize, j as usize))
            &&& forall|k1: int, k2: int|
                0 <= k1 < k2 < hits.len() ==> hits[k1].0 < hits[k2].0 || (hits[k1].0 == hits[k2].0
                    && hits[k1].1 < hits[k2].1)
        }),
    decreases posts.len(),
{
    if posts.len() > 0 {
        let prefix = posts.drop_last();
        lemma_comment_hits_characterization(prefix, needle, sel);
        let last_index = (posts.len() - 1) as usize;
        lemma_comment_hits_in_post_characterization(posts.last().comments, last_index, needle, sel);
        let hits = comment_hits(posts, needle, sel);
        let prefix_hits = comment_hits(prefix, needle, sel);
        let last_hits = comment_hits_in_post(posts.last().comments, last_index, needle, sel);
        assert(forall|i: int| 0 <= i < prefix.len() ==> prefix[i] == posts[i]);
        assert(forall|i: int, j: int|
            0 <= i < posts.len() && 0 <= j < posts[i].comments.len() && contains_substr(
                sel(posts[i].comments[j]),
                needle,
            ) ==> hits.contains((i as usize, j as usize))) by {
            assert forall|i: int, j: int|
                0 <= i < posts.len() && 0 <= j < posts[i].comments.len() && contains_substr(
                    sel(posts[i].comments[j]),
                    needle,
                ) implies hits.contains((i as usize, j as usize)) by {
                if i < posts.len() - 1 {
                    assert(prefix_hits.contains((i as usize, j as usize)));
                    let k = choose|k: int|
                        0 <= k < prefix_hits.len() && prefix_hits[k] == (i as usize, j as usize);
                    assert(hits[k] == (i as usize, j as usize));
                } else {
                    assert(last_hits.contains((last_index, j as usize)));
                    let k = choose|k: int|
                        0 <= k < last_hits.len() && last_hits[k] == (last_index, j as usize);
                    assert(hits[prefix_hits.len() + k] == (last_index, j as usize));
                }
            }
        }
    }
}

/// At least one label contains the needle exactly when the count of
/// matching labels is positive.
pub proof fn lemma_label_hit_count_positive(labels: Seq<Seq<char>>, needle: Seq<char>)
    ensures
        label_hit_count(labels, needle) > 0 <==> exists|j: int|
            0 <= j < labels.len() && contains_substr(labels[j], needle),
    decreases labels.len(),
{
    if labels.len() > 0 {
        let prefix = labels.drop_last();
        lemma_label_hit_count_positive(prefix, needle);
        assert(forall|j: int| 0 <= j < prefix.len() ==> prefix[j] == labels[j]);
        if exists|j: int| 0 <= j < labels.len() && contains_substr(labels[j], needle) {
            let j = choose|j: int| 0 <= j < labels.len() && contains_substr(labels[j], needle);
            if j < labels.len() - 1 {
                assert(contains_substr(prefix[j], needle));
            }
        }
        if label_hit_count(labels, needle) > 0 {
            if label_hit_count(prefix, needle) > 0 {
                let j = choose|j: int| 0 <= j < prefix.len() && contains_substr(prefix[j], needle);
                assert(contains_substr(labels[j], needle));
            } else {
                assert(contains_substr(labels[labels.len() - 1], needle));
            }
        }
    }
}

/// What the label-search hit sequence means: every entry is the index of a
/// post with at least one matching label, every such post's index appears,
/// and the entries are ascending (an index repeats once per matching label
/// of that post).
pub proof fn lemma_label_hits_characterization(posts: Seq<PostView>, needle: Seq<char>)
    requires
        posts.len() <= usize::MAX,
    ensures
        ({
            let hits = label_hits(posts, needle);
            &&& forall|k: int|
                0 <= k < hits.len() ==> hits[k] < posts.len() && label_hit_count(
                    posts[hits[k] as int].labels,
                    needle,
                ) > 0
            &&& forall|i: int|
                0 <= i < posts.len() && label_hit_count(posts[i].labels, needle) > 0
                    ==> hits.contains(i as usize)
            &&& forall|k1: int, k2: int|
                0 <= k1 < k2 < hits.len() ==> hits[k1] <= hits[k2]
        }),
    decreases posts.len(),
{
    if posts.len() > 0 {
        let prefix = posts.drop_last();
        lemma_label_hits_characterization(prefix, needle);
        let hits = label_hits(posts, needle);
        let prefix_hits = label_hits(prefix, needle);
        let last_count = label_hit_count(posts.last().labels, needle);
        assert(forall|i: int| 0 <= i < prefix.len() ==> prefix[i] == posts[i]);
        assert(forall|i: int|
            0 <= i < posts.len() && label_hit_count(posts[i].labels, needle) > 0 ==> hits.contains(
                i as usize,
            )) by {
            assert forall|i: int|
                0 <= i < posts.len() && label_hit_count(
                    posts[i].labels,
                    needle,
                ) > 0 implies hits.contains(i as usize) by {
                if i < posts.len() - 1 {
                    assert(prefix_hits.contains(i as usize));
                    let k = choose|k: int|
                        0 <= k < prefix_hits.len() && prefix_hits[k] == i as usize;
                    assert(hits[k] == i as usize);
                } else {
                    assert(hits[prefix_hits.len() as int] == (posts.len() - 1) as usize);
                }
            }
        }
    }
}

/// Scanning one more post extends the post-level hits by that post's
/// contribution.
pub proof fn lemma_post_hits_step(
    posts: Seq<PostView>,
    needle: Seq<char>,
    sel: spec_fn(PostView) -> Seq<char>,
    i: int,
)
    requires
        0 <= i < posts.len(),
    ensures
        post_hits(posts.take(i + 1), needle, sel) == post_hits(posts.take(i), needle, sel) + (
        if contains_substr(sel(posts[i]), needle) {
            seq![i as usize]
        } else {
            Seq::empty()
        }),
{
    assert(posts.take(i + 1).drop_last() =~= posts.take(i));
    assert(posts.take(i + 1).last() == posts[i]);
}

/// Probing one more comment extends a post's comment-level hits by that
/// comment's contribution.
pub proof fn lemma_comment_hits_in_post_step(
    comments: Seq<CommentView>,
    post_index: usize,
    needle: Seq<char>,
    sel: spec_fn(CommentView) -> Seq<char>,
    i: int,
)
    requires
        0 <= i < comments.len(),
    ensures
        comment_hits_in_post(comments.take(i + 1), post_index, needle, sel)
            == comment_hits_in_post(comments.take(i), post_index, needle, sel) + (
        if contains_substr(sel(comments[i]), needle) {
            seq![(post_index, i as usize)]
        } else {
            Seq::empty()
        }),
{
    assert(comments.take(i + 1).drop_last() =~= comments.take(i));
    assert(comments.take(i + 1).last() == comments[i]);
}

/// Scanning one more post extends the comment-level hits by that post's
/// whole contribution.
pub proof fn lemma_comment_hits_step(
    posts: Seq<PostView>,
    needle: Seq<char>,
    sel: spec_fn(CommentView) -> Seq<char>,
    i: int,
)
    requires
        0 <= i < posts.len(),
    ensures
        comment_hits(posts.take(i + 1), needle, sel) == comment_hits(posts.take(i), needle, sel)
            + comment_hits_in_post(posts[i].comments, i as usize, needle, sel),
{
    assert(posts.take(i + 1).drop_last() =~= posts.take(i));
    assert(posts.take(i + 1).last() == posts[i]);
}

/// Probing one more label extends the count of matching labels by that
/// label's contribution.
pub proof fn lemma_label_hit_count_step(labels: Seq<Seq<char>>, needle: Seq<char>, i: int)
    requires
        0 <= i < labels.len(),
    ensures
        label_hit_count(labels.take(i + 1), needle) == label_hit_count(labels.take(i), needle) + (
        if contains_substr(labels[i], needle) {
            1nat
        } else {
            0nat
        }),
{
    assert(labels.take(i + 1).drop_last() =~= labels.take(i));
    assert(labels.take(i + 1).last() == labels[i]);
}

/// Scanning one more post extends the label-search hits by that post's
/// index, repeated once per matching label.
pub proof fn lemma_label_hits_step(posts: Seq<PostView>, needle: Seq<char>, i: int)
    requires
        0 <= i < posts.len(),
    ensures
        label_hits(posts.take(i + 1), needle) == label_hits(posts.take(i), needle) + Seq::new(
            label_hit_count(posts[i].labels, needle),
            |k: int| i as usize,
        ),
{
    assert(posts.take(i + 1).drop_last() =~= posts.take(i));
    assert(posts.take(i + 1).last() == posts[i]);
}

} // verus!
