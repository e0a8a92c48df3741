//! Numbering of chapters: attaching a list of chapters to a comic, and
//! flattening chapters that a page lists in several groups.
use vstd::prelude::*;
use vstd::pervasive::cloned;
use crate::models::{Chapter, ChapterView, Comic, ComicView, FromLink, SetWhich};

verus! {

/// Distance between the numbers of two consecutive group lists of one comic.
pub const GROUP_SPACING: usize = 10000;

/// `v` in reverse order.
pub fn reversed_vec<T>(v: Vec<T>) -> (r: Vec<T>)
    ensures
        r@ == v@.reverse(),
{
    let mut v = v;
    let ghost orig = v@;
    let mut r: Vec<T> = Vec::new();
    while v.len() > 0
        invariant
            orig.len() == v@.len() + r@.len(),
            v@ == orig.take(v@.len() as int),
            r@ == orig.skip(v@.len() as int).reverse(),
        decreases v@.len(),
    {
        let x = v.pop().unwrap();
        r.push(x);
        proof {
            let n = v@.len() as int;
            assert(orig.skip(n).reverse() =~= orig.skip(n + 1).reverse().push(orig[n]));
            assert(v@ =~= orig.take(n));
        }
    }
    assert(orig.skip(0) == orig);
    r
}

/// Chapters numbered from 1 in list order.
pub open spec fn numbered(chapters: Seq<Chapter>) -> Seq<ChapterView> {
    Seq::new(chapters.len(), |i: int| ChapterView { which: (i + 1) as u32, ..chapters[i]@ })
}

/// Appending a list of chapters to a comic, numbering them from 1.
pub trait AttachTo<T>: Sized {
    /// The list is short enough for its numbers to fit a `u32`.
    spec fn attachable(&self) -> bool;

    /// `after` is `before` with this list appended, numbered in list order.
    spec fn attached(&self, before: T, after: T) -> bool;

    /// `after` is `before` with this list appended in reverse order,
    /// numbered in that order.
    spec fn reversed_attached(&self, before: T, after: T) -> bool;

    fn attach_to(self, target: &mut T)
        requires
            self.attachable(),
        ensures
            self.attached(*old(target), *final(target)),
    ;

    fn reversed_attach_to(self, target: &mut T)
        requires
            self.attachable(),
        ensures
            self.reversed_attached(*old(target), *final(target)),
    ;
}

impl AttachTo<Comic> for Vec<Chapter> {
    open spec fn attachable(&self) -> bool {
        self@.len() <= u32::MAX
    }

    open spec fn attached(&self, before: Comic, after: Comic) -> bool {
        after@ == (ComicView { chapters: before@.chapters + numbered(self@), ..before@ })
    }

    open spec fn reversed_attached(&self, before: Comic, after: Comic) -> bool {
        after@ == (ComicView { chapters: before@.chapters + numbered(self@.reverse()), ..before@ })
    }

    fn attach_to(self, target: &mut Comic) {
        let ghost chapters = self@;
        let mut pending = reversed_vec(self);
        let mut i: usize = 0;
        while pending.len() > 0
            invariant
                i + pending@.len() == chapters.len() <= u32::MAX,
                pending@ == chapters.skip(i as int).reverse(),
                target@ == (ComicView {
                    chapters: old(target)@.chapters + numbered(chapters.take(i as int)),
                    ..old(target)@
                }),
            decreases pending@.len(),
        {
            let mut chapter = pending.pop().unwrap();
            proof {
                assert(chapters.skip(i as int).reverse().last() == chapters[i as int]);
                assert(pending@ =~= chapters.skip(i + 1).reverse());
            }
            chapter.which = (i as u32) + 1;
            target.push_chapter(chapter);
            i = i + 1;
            proof {
                assert(numbered(chapters.take(i as int)) =~= numbered(chapters.take(i - 1)).push(
                    chapter@,
                ));
                assert(old(target)@.chapters + numbered(chapters.take(i - 1)).push(chapter@)
                    =~= (old(target)@.chapters + numbered(chapters.take(i - 1))).push(chapter@));
            }
        }
        assert(chapters.take(chapters.len() as int) == chapters);
    }

    fn reversed_attach_to(self, target: &mut Comic) {
        let r = reversed_vec(self);
        r.attach_to(target);
    }
}

/// The items of all groups, group after group.
pub open spec fn flat<T>(groups: Seq<(String, Vec<T>)>) -> Seq<T>
    decreases groups.len(),
{
    if groups.len() == 0 {
        Seq::empty()
    } else {
        flat(groups.drop_last()) + groups.last().1@
    }
}

/// The items of all groups, group after group, each group read backwards.
pub open spec fn flat_reversed<T>(groups: Seq<(String, Vec<T>)>) -> Seq<T>
    decreases groups.len(),
{
    if groups.len() == 0 {
        Seq::empty()
    } else {
        flat_reversed(groups.drop_last()) + groups.last().1@.reverse()
    }
}

/// The items of group `g`, in the order that numbering reads them.
pub open spec fn group_order<T>(group: Seq<T>, reversed: bool) -> Seq<T> {
    if reversed {
        group.reverse()
    } else {
        group
    }
}

/// All items, in the order that numbering reads them.
pub open spec fn flat_order<T>(groups: Seq<(String, Vec<T>)>, reversed: bool) -> Seq<T> {
    if reversed {
        flat_reversed(groups)
    } else {
        flat(groups)
    }
}

proof fn lemma_flat_order_push<T>(groups: Seq<(String, Vec<T>)>, g: int, reversed: bool)
    requires
        0 <= g < groups.len(),
    ensures
        flat_order(groups.take(g + 1), reversed) == flat_order(groups.take(g), reversed)
            + group_order(groups[g].1@, reversed),
{
    assert(groups.take(g + 1).drop_last() == groups.take(g));
}

pub(crate) proof fn lemma_flat_same_lengths<T>(a: Seq<(String, Vec<T>)>, b: Seq<(String, Vec<T>)>)
    requires
        a.len() == b.len(),
        forall|g: int| 0 <= g < a.len() ==> (#[trigger] a[g].1)@.len() == b[g].1@.len(),
    ensures
        flat(a).len() == flat(b).len(),
        flat_reversed(a).len() == flat(a).len(),
    decreases a.len(),
{
    if a.len() > 0 {
        lemma_flat_same_lengths(a.drop_last(), b.drop_last());
    }
}

/// Which number group list `group_index` gives its `k`-th item (from 0).
pub open spec fn flat_number(group_index: usize, k: int) -> usize {
    (GROUP_SPACING * group_index + k + 1) as usize
}

/// `after` keeps the names and sizes of the groups of `before`, with each
/// group read in numbering order; its items, read in order, are those of
/// `before` numbered from `GROUP_SPACING * group_index + 1`, and `items`
/// holds clones of them in that order.
pub open spec fn flattened<T: SetWhich + Clone>(
    before: Seq<(String, Vec<T>)>,
    after: Seq<(String, Vec<T>)>,
    group_index: usize,
    items: Seq<T>,
    reversed: bool,
) -> bool {
    &&& after.len() == before.len()
    &&& forall|g: int|
        0 <= g < before.len() ==> (#[trigger] after[g]).0 == before[g].0 && after[g].1@.len()
            == before[g].1@.len()
    &&& flat(after).len() == flat_order(before, reversed).len()
    &&& items.len() == flat(after).len()
    &&& forall|k: int|
        0 <= k < items.len() ==> (#[trigger] flat(after)[k]).which_set(
            flat_order(before, reversed)[k],
            flat_number(group_index, k),
        )
    &&& forall|k: int| 0 <= k < items.len() ==> cloned(flat(after)[k], #[trigger] items[k])
}

/// Turning grouped items into one numbered list.
pub trait Flatten<T>: Sized {
    spec fn fits(&self, group_index: usize) -> bool;

    spec fn flattened_to(&self, after: Self, group_index: usize, items: Seq<T>, reversed: bool) -> bool;

    /// Numbers the items of all groups in list order, from
    /// `GROUP_SPACING * group_index + 1`, and returns them in that order.
    fn flatten(&mut self, group_index: usize) -> (r: Vec<T>)
        requires
            old(self).fits(group_index),
        ensures
            old(self).flattened_to(*final(self), group_index, r@, false),
    ;

    /// Reverses each group, then numbers and returns the items as `flatten`
    /// does.
    fn reversed_flatten(&mut self, group_index: usize) -> (r: Vec<T>)
        requires
            old(self).fits(group_index),
        ensures
            old(self).flattened_to(*final(self), group_index, r@, true),
    ;
}

impl<T: FromLink + SetWhich + Clone> Flatten<T> for Vec<(String, Vec<T>)> {
    open spec fn fits(&self, group_index: usize) -> bool {
        GROUP_SPACING * group_index + flat(self@).len() <= usize::MAX
    }

    open spec fn flattened_to(&self, after: Self, group_index: usize, items: Seq<T>, reversed: bool) -> bool {
        flattened(self@, after@, group_index, items, reversed)
    }

    fn flatten(&mut self, group_index: usize) -> (r: Vec<T>) {
        number_groups(self, group_index, false)
    }

    fn reversed_flatten(&mut self, group_index: usize) -> (r: Vec<T>) {
        number_groups(self, group_index, true)
    }
}

proof fn lemma_flat_prefix_len<T>(groups: Seq<(String, Vec<T>)>, g: int, reversed: bool)
    requires
        0 <= g <= groups.len(),
    ensures
        flat_order(groups.take(g), reversed).len() <= flat_order(groups, reversed).len(),
        flat_order(groups, reversed).take(flat_order(groups.take(g), reversed).len() as int)
            == flat_order(groups.take(g), reversed),
    decreases groups.len() - g,
{
    if g < groups.len() {
        lemma_flat_prefix_len(groups, g + 1, reversed);
        lemma_flat_order_push(groups, g, reversed);
        let a = flat_order(groups.take(g), reversed);
        let b = flat_order(groups.take(g + 1), reversed);
        assert(b.take(a.len() as int) =~= a);
        assert(flat_order(groups, reversed).take(a.len() as int) =~= b.take(a.len() as int));
    } else {
        assert(groups.take(g) == groups);
    }
}

fn number_groups<T: FromLink + SetWhich + Clone>(
    groups: &mut Vec<(String, Vec<T>)>,
    group_index: usize,
    reversed: bool,
) -> (r: Vec<T>)
    requires
        GROUP_SPACING * group_index + flat(old(groups)@).len() <= usize::MAX,
    ensures
        flattened(old(groups)@, final(groups)@, group_index, r@, reversed),
{
    let ghost orig = groups@;
    let mut taken: Vec<(String, Vec<T>)> = Vec::new();
    std::mem::swap(&mut taken, groups);
    let mut pending = reversed_vec(taken);
    let mut done: Vec<(String, Vec<T>)> = Vec::new();
    let mut items: Vec<T> = Vec::new();
    let base = GROUP_SPACING * group_index;
    let mut count: usize = 0;
    proof {
        lemma_flat_same_lengths(orig, orig);
        lemma_flat_prefix_len(orig, 0, reversed);
        assert(orig.take(0) =~= Seq::<(String, Vec<T>)>::empty());
        assert(done@ =~= Seq::<(String, Vec<T>)>::empty());
    }
    while pending.len() > 0
        invariant
            base == GROUP_SPACING * group_index,
            base + flat(orig).len() <= usize::MAX,
            flat_reversed(orig).len() == flat(orig).len(),
            done@.len() + pending@.len() == orig.len(),
            pending@ == orig.skip(done@.len() as int).reverse(),
            forall|g: int|
                0 <= g < done@.len() ==> (#[trigger] done@[g]).0 == orig[g].0 && done@[g].1@.len()
                    == orig[g].1@.len(),
            count == flat(done@).len(),
            count == flat_order(orig.take(done@.len() as int), reversed).len(),
            count <= flat(orig).len(),
            items@.len() == count,
            forall|k: int|
                0 <= k < count ==> (#[trigger] flat(done@)[k]).which_set(
                    flat_order(orig.take(done@.len() as int), reversed)[k],
                    flat_number(group_index, k),
                ),
            forall|k: int| 0 <= k < count ==> cloned(flat(done@)[k], #[trigger] items@[k]),
        decreases pending@.len(),
    {
        let g = done.len();
        let (name, group) = pending.pop().unwrap();
        proof {
            assert(orig.skip(g as int).reverse().last() == orig[g as int]);
            assert(pending@ =~= orig.skip(g + 1).reverse());
            lemma_flat_order_push(orig, g as int, reversed);
            lemma_flat_prefix_len(orig, g + 1, reversed);
        }
        let ghost source = group_order(group@, reversed);
        let mut todo = if reversed {
            group
        } else {
            reversed_vec(group)
        };
        proof {
            if reversed {
                assert(group@.reverse().reverse() =~= group@);
            }
            assert(todo@ == source.reverse());
        }
        let ghost todo0 = todo@;
        let ghost done_flat = flat(done@);
        let ghost items0 = items@;
        let mut renumbered: Vec<T> = Vec::new();
        while todo.len() > 0
            invariant
                base == GROUP_SPACING * group_index,
                base + flat(orig).len() <= usize::MAX,
                todo0 == source.reverse(),
                renumbered@.len() + todo@.len() == source.len(),
                todo@ == todo0.take(todo@.len() as int),
                count + source.len() <= flat(orig).len(),
                items@.len() == count + renumbered@.len(),
                items@.take(count as int) == items0,
                forall|j: int|
                    0 <= j < renumbered@.len() ==> (#[trigger] renumbered@[j]).which_set(
                        source[j],
                        flat_number(group_index, count + j),
                    ),
                forall|j: int|
                    0 <= j < renumbered@.len() ==> cloned(
                        renumbered@[j],
                        #[trigger] items@[count + j],
                    ),
            decreases todo@.len(),
        {
            let mut item = todo.pop().unwrap();
            let j = renumbered.len();
            proof {
                assert(todo0[todo@.len() as int] == source[j as int]);
                assert(todo@ =~= todo0.take(todo@.len() as int));
            }
            let number = base + count + j + 1;
            item.set_which(number);
            let copy = item.clone();
            items.push(copy);
            renumbered.push(item);
            proof {
                assert(items@.take(count as int) =~= items0);
            }
        }
        let ghost renumbered_seq = renumbered@;
        let m = renumbered.len();
        let ghost done_before = done@;
        done.push((name, renumbered));
        proof {
            assert(done@.drop_last() =~= done_before);
            assert(done@.drop_last() == done@.take(g as int));
            assert(done@.take(g as int) =~= done@.drop_last());
            assert(flat(done@) == done_flat + renumbered_seq);
            let prefix = flat_order(orig.take(g + 1), reversed);
            assert(prefix == flat_order(orig.take(g as int), reversed) + source);
            assert forall|k: int| 0 <= k < count + source.len() implies (#[trigger] flat(
                done@,
            )[k]).which_set(prefix[k], flat_number(group_index, k)) by {
                if k >= count {
                    assert(flat(done@)[k] == renumbered_seq[k - count]);
                    assert(prefix[k] == source[k - count]);
                } else {
                    assert(flat(done@)[k] == done_flat[k]);
                }
            }
            assert forall|k: int| 0 <= k < count + source.len() implies cloned(
                flat(done@)[k],
                #[trigger] items@[k],
            ) by {
                if k >= count {
                    assert(flat(done@)[k] == renumbered_seq[k - count]);
                    assert(items@[count + (k - count)] == items@[k]);
                } else {
                    assert(flat(done@)[k] == done_flat[k]);
                    assert(items@[k] == items0[k]);
                }
            }
        }
        count = count + m;
    }
    proof {
        assert(orig.take(done@.len() as int) == orig);
        lemma_flat_same_lengths(done@, orig);
    }
    *groups = done;
    items
}

} // verus!
