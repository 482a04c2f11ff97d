//! Which repositories are kept outlined: those that were used last.

use crate::text;
use vstd::prelude::*;
use vstd::string::*;

verus! {

/// How many repositories are kept.
pub const KEPT_REPOSITORIES: usize = 3;

/// The repositories that are kept, from the one whose use is longest ago to the one
/// that was used last.
#[derive(Debug)]
pub struct RepoRecency {
    paths: Vec<String>,
}

impl DeepView for RepoRecency {
    type V = Seq<Seq<char>>;

    closed spec fn deep_view(&self) -> Seq<Seq<char>> {
        text::texts(self.paths@)
    }
}

/// A list without one of its texts.
pub open spec fn without(list: Seq<Seq<char>>, path: Seq<char>) -> Seq<Seq<char>> {
    list.filter(|kept: Seq<char>| kept != path)
}

/// What a use makes of the list, and which repository it pushes out.
pub open spec fn touched(list: Seq<Seq<char>>, path: Seq<char>) -> (
    Seq<Seq<char>>,
    Option<Seq<char>>,
) {
    let used = without(list, path).push(path);
    if used.len() > KEPT_REPOSITORIES {
        (used.drop_first(), Some(used[0]))
    } else {
        (used, None)
    }
}

impl RepoRecency {
    /// No repository was used more often than once in the list, and no more are kept
    /// than there may be.
    pub open spec fn valid(&self) -> bool {
        self.deep_view().no_duplicates() && self.deep_view().len() <= KEPT_REPOSITORIES
    }

    pub fn new() -> (recency: RepoRecency)
        ensures
            recency.deep_view() == Seq::<Seq<char>>::empty(),
            recency.valid(),
    {
        let recency = RepoRecency { paths: Vec::new() };
        assert(text::texts(recency.paths@) =~= Seq::empty());
        recency
    }

    /// The repositories that are kept, the last one used last.
    pub fn paths(&self) -> (paths: &Vec<String>)
        ensures
            text::texts(paths@) == self.deep_view(),
    {
        &self.paths
    }

    /// Notes a use. Gives the repository that is not kept any more.
    pub fn touch(&mut self, path: &str) -> (evicted: Option<String>)
        requires
            old(self).valid(),
        ensures
            (final(self).deep_view(), evicted.deep_view()) == touched(
                old(self).deep_view(),
                path@,
            ),
            final(self).valid(),
    {
        let ghost model = self.deep_view();
        let ghost keep = |kept: Seq<char>| kept != path@;
        let mut used: Vec<String> = Vec::new();
        let mut i: usize = 0;
        reveal(Seq::filter);
        assert(text::texts(used@) =~= model.take(0).filter(keep));
        while i < self.paths.len()
            invariant
                model == text::texts(self.paths@),
                keep == (|kept: Seq<char>| kept != path@),
                i <= self.paths@.len(),
                text::texts(used@) == model.take(i as int).filter(keep),
            decreases self.paths@.len() - i,
        {
            reveal(Seq::filter);
            assert(model.take(i + 1).drop_last() =~= model.take(i as int));
            assert(model.take(i + 1).last() == self.paths@[i as int]@);
            if !text::same(self.paths[i].as_str(), path) {
                let kept = self.paths[i].clone();
                proof {
                    text::lemma_texts_push(used@, kept);
                }
                used.push(kept);
            }
            i += 1;
        }
        assert(model.take(model.len() as int) =~= model);
        let ghost rest = text::texts(used@);
        let last = path.to_owned();
        proof {
            text::lemma_texts_push(used@, last);
            lemma_touched(model, path@);
        }
        used.push(last);
        if used.len() > KEPT_REPOSITORIES {
            let ghost whole = text::texts(used@);
            let evicted = used.remove(0);
            assert(text::texts(used@) =~= whole.drop_first());
            self.paths = used;
            Some(evicted)
        } else {
            self.paths = used;
            None
        }
    }
}

/// A list keeps each repository once and no more than there may be.
proof fn lemma_touched(list: Seq<Seq<char>>, path: Seq<char>)
    requires
        list.no_duplicates(),
        list.len() <= KEPT_REPOSITORIES,
    ensures
        without(list, path).push(path).no_duplicates(),
        without(list, path).push(path).len() <= KEPT_REPOSITORIES + 1,
        touched(list, path).0.no_duplicates(),
        touched(list, path).0.len() <= KEPT_REPOSITORIES,
{
    let rest = without(list, path);
    lemma_without(list, path);
    let used = rest.push(path);
    assert(used.drop_first().no_duplicates()) by {
        assert forall|i: int, j: int|
            0 <= i < used.drop_first().len() && 0 <= j < used.drop_first().len() && i
                != j implies used.drop_first()[i] != used.drop_first()[j] by {
            assert(used[i + 1] != used[j + 1]);
        }
    }
}

proof fn lemma_without(list: Seq<Seq<char>>, path: Seq<char>)
    requires
        list.no_duplicates(),
    ensures
        without(list, path).no_duplicates(),
        without(list, path).len() <= list.len(),
        !without(list, path).contains(path),
        forall|x: Seq<char>| #[trigger] without(list, path).contains(x) ==> list.contains(x),
    decreases list.len(),
{
    reveal(Seq::filter);
    let keep = |kept: Seq<char>| kept != path;
    if list.len() > 0 {
        let front = list.drop_last();
        let last = list.last();
        assert(front.no_duplicates());
        lemma_without(front, path);
        assert(!front.contains(last)) by {
            assert forall|i: int| 0 <= i < front.len() implies front[i] != last by {
                assert(list[i] != list[list.len() - 1]);
            }
        }
        let out = without(list, path);
        let kept = without(front, path);
        assert(!kept.contains(last));
        if keep(last) {
            assert(out == kept.push(last));
            assert forall|i: int, j: int|
                0 <= i < out.len() && 0 <= j < out.len() && i != j implies out[i] != out[j] by {
                if i < kept.len() && j < kept.len() {
                    assert(kept[i] != kept[j]);
                } else if i < kept.len() {
                    assert(kept.contains(kept[i]));
                } else {
                    assert(kept.contains(kept[j]));
                }
            }
        }
        assert forall|x: Seq<char>| #[trigger] out.contains(x) implies list.contains(x) by {
            if x != last {
                assert(without(front, path).contains(x)) by {
                    let k = choose|k: int| 0 <= k < out.len() && out[k] == x;
                    if keep(last) {
                        assert(out == without(front, path).push(last));
                        assert(without(front, path)[k] == x);
                    }
                }
                let k = choose|k: int| 0 <= k < front.len() && front[k] == x;
                assert(list[k] == x);
            } else {
                assert(list[list.len() - 1] == x);
            }
        }
    }
}

/// The repository that leaves is the one whose use is longest ago.
pub proof fn the_least_recently_used_leaves(list: Seq<Seq<char>>, path: Seq<char>)
    requires
        list.len() == KEPT_REPOSITORIES,
        list.no_duplicates(),
        !list.contains(path),
    ensures
        touched(list, path) == (list.drop_first().push(path), Some(list[0])),
{
    reveal(Seq::filter);
    let keep = |kept: Seq<char>| kept != path;
    assert(without(list, path) =~= list) by {
        lemma_all_kept(list, path);
    }
    assert(list.push(path).drop_first() =~= list.drop_first().push(path));
}

proof fn lemma_all_kept(list: Seq<Seq<char>>, path: Seq<char>)
    requires
        !list.contains(path),
    ensures
        without(list, path) == list,
    decreases list.len(),
{
    reveal(Seq::filter);
    if list.len() > 0 {
        assert(!list.drop_last().contains(path)) by {
            assert forall|i: int| 0 <= i < list.drop_last().len() implies list.drop_last()[i]
                != path by {
                assert(list.contains(list[i]));
            }
        }
        assert(list.contains(list[list.len() - 1]));
        lemma_all_kept(list.drop_last(), path);
        assert(list =~= list.drop_last().push(list.last()));
    }
}

proof fn lemma_kept_whole(list: Seq<Seq<char>>, path: Seq<char>)
    requires
        !list.contains(path),
    ensures
        without(list, path) == list,
    decreases list.len(),
{
    reveal(Seq::filter);
    if list.len() == 0 {
        assert(without(list, path) =~= list);
    } else {
        let front = list.drop_last();
        assert forall|i: int| 0 <= i < front.len() implies front[i] != path by {
            assert(list.contains(list[i]));
        }
        lemma_kept_whole(front, path);
        assert(list.contains(list.last()));
        assert(without(list, path) =~= front.push(list.last()));
        assert(front.push(list.last()) =~= list);
    }
}

proof fn lemma_taken_out(before: Seq<Seq<char>>, path: Seq<char>, after: Seq<Seq<char>>)
    requires
        !before.contains(path),
        !after.contains(path),
    ensures
        without(before.push(path) + after, path) == before + after,
    decreases after.len(),
{
    reveal(Seq::filter);
    let list = before.push(path) + after;
    if after.len() == 0 {
        assert(list.drop_last() =~= before);
        lemma_kept_whole(before, path);
        assert(before + after =~= before);
    } else {
        let front = after.drop_last();
        assert forall|i: int| 0 <= i < front.len() implies front[i] != path by {
            assert(after.contains(after[i]));
        }
        assert(after.contains(after.last()));
        lemma_taken_out(before, path, front);
        assert(list.drop_last() =~= before.push(path) + front);
        assert((before + front).push(after.last()) =~= before + after);
    }
}

/// A repository that is kept already becomes the one used last; the others stay in their
/// order, and none leaves.
pub proof fn a_use_moves_to_the_end(
    before: Seq<Seq<char>>,
    path: Seq<char>,
    after: Seq<Seq<char>>,
)
    requires
        before.len() + after.len() < 3,
        !before.contains(path),
        !after.contains(path),
    ensures
        touched(before.push(path) + after, path) == (
            (before + after).push(path),
            None::<Seq<char>>,
        ),
{
    lemma_taken_out(before, path, after);
}

/// A repository that is not kept yet is added behind the others; none leaves before there
/// are three.
pub proof fn a_first_use_is_added(list: Seq<Seq<char>>, path: Seq<char>)
    requires
        list.len() < 3,
        !list.contains(path),
    ensures
        touched(list, path) == (list.push(path), None::<Seq<char>>),
{
    lemma_kept_whole(list, path);
}

} // verus!
