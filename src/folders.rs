//! Grouping bookmarks by folder label.

use vstd::prelude::*;
use itertools::Itertools;
use crate::netscape_bookmark::Bookmark;

verus! {

/// Folder labels, each with the bookmarks filed under it.
pub type FolderGroups = Vec<(String, Vec<Bookmark>)>;

/// Holds of a bookmark filed under folder `f`.
pub open spec fn in_folder(f: Seq<char>) -> spec_fn(Bookmark) -> bool {
    |b: Bookmark| b.folder@ == f
}

/// The bookmarks of `s` filed under `f`, in the order of `s`.
pub open spec fn folder_members(s: Seq<Bookmark>, f: Seq<char>) -> Seq<Bookmark> {
    s.filter(in_folder(f))
}

/// All bookmarks of `g`, group after group.
pub open spec fn group_entries(g: Seq<(String, Vec<Bookmark>)>) -> Seq<Bookmark>
    decreases g.len(),
{
    if g.len() == 0 {
        Seq::empty()
    } else {
        group_entries(g.drop_last()) + g.last().1@
    }
}

/// Some group of `g` has label `f`.
pub open spec fn has_folder(g: Seq<(String, Vec<Bookmark>)>, f: Seq<char>) -> bool {
    exists|i: int| 0 <= i < g.len() && g[i].0@ == f
}

/// Folder `f` occurs in `s` before folder `h` first does.
pub open spec fn seen_before(s: Seq<Bookmark>, f: Seq<char>, h: Seq<char>) -> bool {
    exists|a: int|
        0 <= a < s.len() && #[trigger] s[a].folder@ == f && forall|b: int|
            0 <= b <= a ==> #[trigger] s[b].folder@ != h
}

/// `g` groups `s` by folder: labels are distinct, each group holds exactly the
/// bookmarks of `s` under its label in input order, no group is empty, every
/// bookmark's folder has a group, and groups come in the order in which their
/// labels first occur in `s`.
pub open spec fn is_folder_grouping(s: Seq<Bookmark>, g: Seq<(String, Vec<Bookmark>)>) -> bool {
    &&& forall|i: int, j: int|
        #![trigger g[i], g[j]]
        0 <= i < g.len() && 0 <= j < g.len() && i != j ==> g[i].0@ != g[j].0@
    &&& forall|i: int| 0 <= i < g.len() ==> #[trigger] g[i].1@ == folder_members(s, g[i].0@)
    &&& forall|i: int| 0 <= i < g.len() ==> (#[trigger] g[i]).1@.len() > 0
    &&& forall|j: int| 0 <= j < s.len() ==> has_folder(g, #[trigger] s[j].folder@)
    &&& forall|i: int, j: int|
        #![trigger g[i], g[j]]
        0 <= i < j < g.len() ==> seen_before(s, g[i].0@, g[j].0@)
}

/// Order of first occurrence is kept when more bookmarks follow.
proof fn lemma_seen_before_extend(s: Seq<Bookmark>, t: Seq<Bookmark>, f: Seq<char>, h: Seq<char>)
    requires
        seen_before(s, f, h),
    ensures
        seen_before(s + t, f, h),
{
    let a = choose|a: int|
        0 <= a < s.len() && #[trigger] s[a].folder@ == f && forall|b: int|
            0 <= b <= a ==> #[trigger] s[b].folder@ != h;
    assert((s + t)[a] == s[a]);
    assert forall|b: int| 0 <= b <= a implies #[trigger] (s + t)[b].folder@ != h by {
        assert((s + t)[b] == s[b]);
    }
}

/// Relies on itertools::Itertools::chunk_by: the bookmarks are cut, in order,
/// into runs of consecutive bookmarks with equal folder, each run non-empty
/// and keyed by that folder.
#[verifier::external_body]
fn folder_runs(bookmarks: Vec<Bookmark>) -> (r: FolderGroups)
    ensures
        group_entries(r@) == bookmarks@,
        forall|i: int| 0 <= i < r@.len() ==> (#[trigger] r@[i]).1@.len() > 0,
        forall|i: int, j: int|
            0 <= i < r@.len() && 0 <= j < r@[i].1@.len() ==> (#[trigger] r@[i].1@[j]).folder@
                == r@[i].0@,
{
    let runs = bookmarks.into_iter().chunk_by(|b| b.folder.clone());
    let r: FolderGroups = (&runs).into_iter().map(|(folder, run)| (folder, run.collect())).collect();
    r
}

/// The index of the group labelled `folder`, if there is one.
fn find_folder(groups: &FolderGroups, folder: &String) -> (r: Option<usize>)
    ensures
        match r {
            Some(k) => k < groups@.len() && groups@[k as int].0@ == folder@,
            None => forall|i: int| 0 <= i < groups@.len() ==> groups@[i].0@ != folder@,
        },
{
    let mut i: usize = 0;
    while i < groups.len()
        invariant
            i <= groups@.len(),
            forall|t: int| 0 <= t < i ==> groups@[t].0@ != folder@,
        decreases groups@.len() - i,
    {
        if groups[i].0 == *folder {
            return Some(i);
        }
        i = i + 1;
    }
    None
}

proof fn lemma_filter_all(s: Seq<Bookmark>, p: spec_fn(Bookmark) -> bool)
    requires
        forall|i: int| 0 <= i < s.len() ==> p(#[trigger] s[i]),
    ensures
        s.filter(p) == s,
    decreases s.len(),
{
    reveal(Seq::filter);
    if s.len() > 0 {
        lemma_filter_all(s.drop_last(), p);
        assert(s.drop_last().push(s.last()) =~= s);
    }
}

proof fn lemma_filter_none(s: Seq<Bookmark>, p: spec_fn(Bookmark) -> bool)
    requires
        forall|i: int| 0 <= i < s.len() ==> !p(#[trigger] s[i]),
    ensures
        s.filter(p) == Seq::<Bookmark>::empty(),
    decreases s.len(),
{
    reveal(Seq::filter);
    if s.len() > 0 {
        lemma_filter_none(s.drop_last(), p);
    }
}

/// Lengthening group `k` by `run` adds the bookmarks of `run` to the groups'
/// contents and changes nothing else.
proof fn lemma_entries_extend(
    g: Seq<(String, Vec<Bookmark>)>,
    k: int,
    e: (String, Vec<Bookmark>),
    run: Seq<Bookmark>,
)
    requires
        0 <= k < g.len(),
        e.1@ == g[k].1@ + run,
    ensures
        group_entries(g.update(k, e)).to_multiset() == group_entries(g).to_multiset().add(
            run.to_multiset(),
        ),
    decreases g.len(),
{
    broadcast use vstd::seq_lib::lemma_multiset_commutative;

    let g2 = g.update(k, e);
    if k == g.len() - 1 {
        assert(g2.drop_last() =~= g.drop_last());
        assert(group_entries(g2) =~= group_entries(g.drop_last()) + (g[k].1@ + run));
        assert((group_entries(g.drop_last()) + g[k].1@) + run =~= group_entries(g.drop_last()) + (
        g[k].1@ + run));
    } else {
        assert(g2.drop_last() =~= g.drop_last().update(k, e));
        lemma_entries_extend(g.drop_last(), k, e, run);
    }
    assert(group_entries(g2).to_multiset() =~= group_entries(g).to_multiset().add(
        run.to_multiset(),
    ));
}

/// Groups the bookmarks by folder label. Each group keeps its bookmarks in
/// input order, even where other folders come between them; the groups
/// together hold every bookmark exactly once.
pub fn group_by_folder(bookmarks: Vec<Bookmark>) -> (groups: FolderGroups)
    ensures
        is_folder_grouping(bookmarks@, groups@),
        group_entries(groups@).to_multiset() == bookmarks@.to_multiset(),
{
    broadcast use vstd::seq_lib::lemma_multiset_commutative;
    broadcast use vstd::seq::Seq::filter_distributes_over_add;

    let ghost input = bookmarks@;
    let mut runs = folder_runs(bookmarks);
    let ghost orig = runs@;
    let mut groups: FolderGroups = Vec::new();
    let mut j: usize = 0;
    proof {
        assert(orig.take(0) =~= Seq::<(String, Vec<Bookmark>)>::empty());
    }
    while j < runs.len()
        invariant
            j <= runs@.len() == orig.len(),
            forall|t: int| j <= t < orig.len() ==> runs@[t] == orig[t],
            group_entries(orig) == input,
            forall|i: int| 0 <= i < orig.len() ==> (#[trigger] orig[i]).1@.len() > 0,
            forall|i: int, t: int|
                0 <= i < orig.len() && 0 <= t < orig[i].1@.len() ==> (#[trigger] orig[i].1@[t]).folder@
                    == orig[i].0@,
            is_folder_grouping(group_entries(orig.take(j as int)), groups@),
            group_entries(groups@).to_multiset() == group_entries(
                orig.take(j as int),
            ).to_multiset(),
        decreases runs@.len() - j,
    {
        let ghost prefix = group_entries(orig.take(j as int));
        let ghost old_groups = groups@;
        let mut folder = String::new();
        let mut run: Vec<Bookmark> = Vec::new();
        std::mem::swap(&mut folder, &mut runs[j].0);
        std::mem::swap(&mut run, &mut runs[j].1);
        let ghost run_seq = run@;
        let ghost next = prefix + run@;
        proof {
            assert(orig.take(j + 1).drop_last() =~= orig.take(j as int));
            assert(group_entries(orig.take(j + 1)) == next);
            assert forall|t: int| 0 <= t < run@.len() implies #[trigger] in_folder(folder@)(
                run@[t],
            ) by {
                assert(orig[j as int].1@[t].folder@ == orig[j as int].0@);
            }
            lemma_filter_all(run@, in_folder(folder@));
        }
        match find_folder(&groups, &folder) {
            Some(k) => {
                groups[k].1.append(&mut run);
                proof {
                    let g = groups@;
                    assert(g =~= old_groups.update(k as int, g[k as int]));
                    assert(g[k as int].1@ == old_groups[k as int].1@ + run_seq);
                    lemma_entries_extend(old_groups, k as int, g[k as int], run_seq);
                    vstd::seq_lib::lemma_multiset_commutative(prefix, run_seq);
                    assert forall|i: int| 0 <= i < g.len() implies #[trigger] g[i].1@
                        == folder_members(next, g[i].0@) by {
                        if i != k {
                            assert forall|t: int| 0 <= t < orig[j as int].1@.len() implies !#[trigger] in_folder(g[i].0@)(
                                orig[j as int].1@[t],
                            ) by {
                                assert(orig[j as int].1@[t].folder@ == orig[j as int].0@);
                                assert(old_groups[i] == g[i]);
                            }
                            lemma_filter_none(orig[j as int].1@, in_folder(g[i].0@));
                            assert(orig[j as int].1@.filter(in_folder(g[i].0@)) =~= Seq::<Bookmark>::empty());
                        }
                    }
                    assert forall|t: int| 0 <= t < next.len() implies has_folder(g, #[trigger] next[t].folder@) by {
                        if t < prefix.len() {
                            assert(next[t] == prefix[t]);
                            assert(has_folder(old_groups, prefix[t].folder@));
                            let w = choose|w: int| 0 <= w < old_groups.len() && old_groups[w].0@ == prefix[t].folder@;
                            assert(g[w].0@ == old_groups[w].0@);
                        } else {
                            assert(next[t] == orig[j as int].1@[t - prefix.len()]);
                            assert(g[k as int].0@ == folder@);
                        }
                    }
                    assert(forall|i: int| 0 <= i < g.len() ==> g[i].0@ == old_groups[i].0@);
                    assert forall|i: int, i2: int| 0 <= i < i2 < g.len() implies #[trigger] seen_before(
                        next,
                        g[i].0@,
                        g[i2].0@,
                    ) by {
                        assert(old_groups[i] == old_groups[i]);
                        assert(old_groups[i2] == old_groups[i2]);
                        lemma_seen_before_extend(prefix, run_seq, old_groups[i].0@, old_groups[i2].0@);
                    }
                }
            },
            None => {
                groups.push((folder, run));
                proof {
                    let g = groups@;
                    let n = old_groups.len() as int;
                    assert(g.drop_last() =~= old_groups);
                    assert(group_entries(g) == group_entries(old_groups) + run_seq);
                    vstd::seq_lib::lemma_multiset_commutative(group_entries(old_groups), run_seq);
                    vstd::seq_lib::lemma_multiset_commutative(prefix, run_seq);
                    assert forall|t: int| 0 <= t < prefix.len() implies !#[trigger] in_folder(g[n].0@)(
                        prefix[t],
                    ) by {
                        assert(has_folder(old_groups, prefix[t].folder@));
                    }
                    lemma_filter_none(prefix, in_folder(g[n].0@));
                    assert forall|i: int| 0 <= i < g.len() implies #[trigger] g[i].1@
                        == folder_members(next, g[i].0@) by {
                        if i != n {
                            assert(g[i] == old_groups[i]);
                            assert forall|t: int| 0 <= t < run@.len() implies !#[trigger] in_folder(g[i].0@)(
                                run@[t],
                            ) by {
                                assert(in_folder(folder@)(run@[t]));
                            }
                            lemma_filter_none(run@, in_folder(g[i].0@));
                            assert(run@.filter(in_folder(g[i].0@)) =~= Seq::<Bookmark>::empty());
                        } else {
                            assert(prefix.filter(in_folder(g[n].0@)) + run@ =~= run@);
                        }
                    }
                    assert forall|t: int| 0 <= t < next.len() implies has_folder(g, #[trigger] next[t].folder@) by {
                        if t < prefix.len() {
                            assert(next[t] == prefix[t]);
                            assert(has_folder(old_groups, prefix[t].folder@));
                            let w = choose|w: int| 0 <= w < old_groups.len() && old_groups[w].0@ == prefix[t].folder@;
                            assert(g[w] == old_groups[w]);
                        } else {
                            assert(next[t] == run@[t - prefix.len()]);
                            assert(in_folder(folder@)(run@[t - prefix.len()]));
                        }
                    }
                    assert(forall|i: int| 0 <= i < n ==> g[i] == old_groups[i]);
                    assert forall|i: int, i2: int| 0 <= i < i2 < g.len() implies #[trigger] seen_before(
                        next,
                        g[i].0@,
                        g[i2].0@,
                    ) by {
                        assert(g[i] == old_groups[i]);
                        if i2 < n {
                            assert(g[i2] == old_groups[i2]);
                            lemma_seen_before_extend(prefix, run_seq, g[i].0@, g[i2].0@);
                        } else {
                            let key = g[i].0@;
                            let e = old_groups[i].1@[0];
                            assert(prefix.filter(in_folder(key)).contains(e)) by {
                                assert(old_groups[i].1@ == folder_members(prefix, key));
                            }
                            prefix.lemma_filter_contains_rev(in_folder(key), e);
                            assert(in_folder(key)(e)) by {
                                broadcast use vstd::seq_lib::group_filter_ensures;

                            }
                            let a = choose|a: int| 0 <= a < prefix.len() && prefix[a] == e;
                            assert forall|b: int| 0 <= b <= a implies #[trigger] next[b].folder@ != folder@ by {
                                assert(next[b] == prefix[b]);
                                assert(has_folder(old_groups, prefix[b].folder@));
                            }
                            assert(next[a] == prefix[a]);
                            assert(next[a].folder@ == key);
                        }
                    }
                }
            },
        }
        j = j + 1;
    }
    proof {
        assert(orig.take(orig.len() as int) =~= orig);
    }
    groups
}

} // verus!
