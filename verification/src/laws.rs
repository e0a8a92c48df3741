//! Properties of the library that span several calls or hold for every
//! input: how a page walk proceeds, how chapters are numbered, what a
//! header map gives back, what a chapter title looks like, what the list
//! readers read from a page and which URLs the routes accept.
use vstd::prelude::*;
use crate::encoding::{is_printable_ascii, lemma_encode_printable_bytes};
use crate::filename::{extension, page_file_name, without_query};
use crate::grouping::{
    flat, flat_number, flat_order, flat_reversed, flattened, lemma_flat_same_lengths, numbered,
    GROUP_SPACING,
};
use crate::models::{
    encode_utf8_spec, referer_headers, referer_name, Chapter, ChapterView, SetWhich,
};
use crate::dom::{doc_matches, element_attr, element_first_text, element_matches};
use crate::grouped::GroupedItemsSelector;
use crate::links::LinkQuery;
use crate::listing::{Entry, ListQuery};
use crate::pages::{next_step, walk_ended, PagesView};
use crate::routes::{no_page_pattern, route_sources, route_table};
use crate::text::{
    decimal, digit_char, first_index_of, is_white_space, lemma_first_index_of, split_from,
    split_pieces, strip_leading, strip_trailing, trimmed,
};

verus! {

/// The state of a walk after `k` steps from `v`.
pub open spec fn after_steps(v: PagesView, k: nat) -> PagesView
    decreases k,
{
    if k == 0 {
        v
    } else {
        next_step(after_steps(v, (k - 1) as nat)).0
    }
}

/// What the step taken after `k` steps from `v` yields.
pub open spec fn yield_at(v: PagesView, k: nat) -> Option<Option<crate::models::Page>> {
    next_step(after_steps(v, k)).1
}

/// Taking steps only advances the step counter: the chapter, its pages and
/// the page count stay as they are.
pub proof fn law_steps_only_advance(v: PagesView, k: nat)
    ensures
        after_steps(v, k) == (PagesView { current_page: v.current_page + k, ..v }),
    decreases k,
{
    if k > 0 {
        law_steps_only_advance(v, (k - 1) as nat);
    }
}

/// A walk whose count is the number of its known pages yields those pages
/// in order, one per step, and then ends.
pub proof fn law_full_walk_yields_pages_in_order(v: PagesView)
    requires
        v.current_page == 0,
        v.chapter.pages.len() <= i32::MAX,
        v.total == v.chapter.pages.len() as i32,
    ensures
        forall|k: nat|
            k < v.chapter.pages.len() ==> #[trigger] yield_at(v, k) == Some(
                Some(v.chapter.pages[k as int]),
            ),
        yield_at(v, v.chapter.pages.len()) == Some(None::<crate::models::Page>),
{
    assert forall|k: nat| k < v.chapter.pages.len() implies #[trigger] yield_at(v, k) == Some(
        Some(v.chapter.pages[k as int]),
    ) by {
        law_steps_only_advance(v, k);
        if v.total == 0 {
            assert(v.chapter.pages.len() == 0);
        }
    }
    law_steps_only_advance(v, v.chapter.pages.len());
}

/// A walk with a positive count ends at the step after that many steps,
/// whatever pages it holds; a walk with count 0 ends at its first step.
pub proof fn law_walk_ends_after_count(v: PagesView)
    requires
        v.current_page == 0,
        v.total >= 0,
    ensures
        yield_at(v, v.total as nat) == Some(None::<crate::models::Page>),
        forall|k: nat| k > v.total ==> walk_ended(v.total, k),
{
    law_steps_only_advance(v, v.total as nat);
}

/// Once a walk with an unknown count has yielded all known pages, its next
/// step asks for a fetch; after the fetched pages are taken, the following
/// steps yield the rest of them in order, and a step after them asks for a
/// fetch again.
pub proof fn law_fetched_pages_follow_in_order(v: PagesView, fetched: Seq<crate::models::Page>)
    requires
        v.total < 0,
        v.current_page == v.chapter.pages.len(),
        fetched.len() > 0,
    ensures
        next_step(v).1 == None::<Option<crate::models::Page>>,
        ({
            let w = PagesView {
                chapter: crate::models::ChapterView {
                    pages: v.chapter.pages + fetched,
                    ..v.chapter
                },
                ..next_step(v).0
            };
            &&& forall|j: nat|
                1 <= j < fetched.len() ==> #[trigger] yield_at(w, (j - 1) as nat) == Some(
                    Some(fetched[j as int]),
                )
            &&& yield_at(w, (fetched.len() - 1) as nat) == None::<Option<crate::models::Page>>
        }),
{
    let w = PagesView {
        chapter: crate::models::ChapterView { pages: v.chapter.pages + fetched, ..v.chapter },
        ..next_step(v).0
    };
    assert forall|j: nat| 1 <= j < fetched.len() implies #[trigger] yield_at(w, (j - 1) as nat)
        == Some(Some(fetched[j as int])) by {
        law_steps_only_advance(w, (j - 1) as nat);
    }
    law_steps_only_advance(w, (fetched.len() - 1) as nat);
}

/// Attaching numbers the chapters 1, 2, 3, ... in list order and changes
/// nothing else about them.
pub proof fn law_attach_numbers_from_one(chapters: Seq<Chapter>)
    requires
        chapters.len() <= u32::MAX,
    ensures
        numbered(chapters).len() == chapters.len(),
        forall|k: int|
            0 <= k < chapters.len() ==> (#[trigger] numbered(chapters)[k]).which == k + 1
                && numbered(chapters)[k] == (ChapterView { which: (k + 1) as u32, ..chapters[k]@ }),
{
}

/// Attaching in reverse gives the last chapter of the list number 1 and the
/// first chapter the highest number, the number of chapters.
pub proof fn law_reversed_attach_numbers_from_last(chapters: Seq<Chapter>)
    requires
        chapters.len() <= u32::MAX,
    ensures
        forall|k: int|
            0 <= k < chapters.len() ==> (#[trigger] numbered(chapters.reverse())[k]) == (
            ChapterView { which: (k + 1) as u32, ..chapters[chapters.len() - 1 - k]@ }),
        chapters.len() > 0 ==> numbered(chapters.reverse())[chapters.len() - 1].which
            == chapters.len(),
{
}

/// Within one flattening the numbers grow by one from item to item, so no
/// two items share a number.
pub proof fn law_flatten_numbers_consecutive(group_index: usize, j: int, k: int)
    requires
        0 <= j < k,
        GROUP_SPACING * group_index + k + 1 <= usize::MAX,
    ensures
        flat_number(group_index, k) == flat_number(group_index, j) + (k - j),
        flat_number(group_index, j) < flat_number(group_index, k),
{
}

/// Lists flattened at different group indexes never share a number as long
/// as each list holds fewer items than the spacing between groups.
pub proof fn law_flatten_groups_disjoint(g1: usize, k1: int, g2: usize, k2: int)
    requires
        g1 != g2,
        0 <= k1 < GROUP_SPACING,
        0 <= k2 < GROUP_SPACING,
        GROUP_SPACING * g1 + k1 + 1 <= usize::MAX,
        GROUP_SPACING * g2 + k2 + 1 <= usize::MAX,
    ensures
        flat_number(g1, k1) != flat_number(g2, k2),
{
    if g1 < g2 {
        assert(GROUP_SPACING * g1 + GROUP_SPACING <= GROUP_SPACING * g2) by (nonlinear_arith)
            requires
                g1 < g2,
        ;
    } else {
        assert(GROUP_SPACING * g2 + GROUP_SPACING <= GROUP_SPACING * g1) by (nonlinear_arith)
            requires
                g2 < g1,
        ;
    }
}

/// A header map gives back the value last set for a name, and setting one
/// name leaves the others as they were.
pub proof fn law_headers_read_after_write(
    before: Map<Seq<char>, Seq<char>>,
    name: Seq<char>,
    value: Seq<char>,
    other: Seq<char>,
)
    requires
        other != name,
    ensures
        before.insert(name, value).dom().contains(name),
        before.insert(name, value)[name] == value,
        before.insert(name, value).dom().contains(other) == before.dom().contains(other),
        before.dom().contains(other) ==> before.insert(name, value)[other] == before[other],
{
}

proof fn lemma_strip_leading_shape(s: Seq<char>)
    ensures
        strip_leading(s).len() <= s.len(),
        strip_leading(s) == s.skip(s.len() - strip_leading(s).len()),
        strip_leading(s).len() > 0 ==> !is_white_space(strip_leading(s)[0]),
    decreases s.len(),
{
    if s.len() > 0 && is_white_space(s[0]) {
        lemma_strip_leading_shape(s.drop_first());
        assert(s.drop_first().skip(s.drop_first().len() - strip_leading(s).len()) =~= s.skip(
            s.len() - strip_leading(s).len(),
        ));
    } else {
        assert(s.skip(0) =~= s);
    }
}

proof fn lemma_strip_trailing_shape(s: Seq<char>)
    ensures
        strip_trailing(s).len() <= s.len(),
        strip_trailing(s) == s.take(strip_trailing(s).len() as int),
        strip_trailing(s).len() > 0 ==> !is_white_space(strip_trailing(s).last()),
    decreases s.len(),
{
    if s.len() > 0 && is_white_space(s.last()) {
        lemma_strip_trailing_shape(s.drop_last());
        assert(s.drop_last().take(strip_trailing(s).len() as int) =~= s.take(
            strip_trailing(s).len() as int,
        ));
    } else {
        assert(s.take(s.len() as int) =~= s);
    }
}

proof fn lemma_strip_leading_keeps(s: Seq<char>)
    requires
        s.len() == 0 || !is_white_space(s[0]),
    ensures
        strip_leading(s) == s,
{
}

proof fn lemma_strip_trailing_keeps_start(s: Seq<char>)
    requires
        s.len() == 0 || !is_white_space(s[0]),
    ensures
        strip_trailing(s).len() == 0 || !is_white_space(strip_trailing(s)[0]),
    decreases s.len(),
{
    if s.len() > 0 && is_white_space(s.last()) {
        if s.len() == 1 {
            assert(s.drop_last().len() == 0);
        } else {
            lemma_strip_trailing_keeps_start(s.drop_last());
        }
    }
}

/// A chapter title neither starts nor ends with white space, so setting a
/// chapter's title to its own title leaves it unchanged.
pub proof fn law_title_trimmed_and_stable(s: Seq<char>)
    ensures
        trimmed(s).len() > 0 ==> !is_white_space(trimmed(s)[0]) && !is_white_space(
            trimmed(s).last(),
        ),
        trimmed(trimmed(s)) == trimmed(s),
{
    lemma_strip_leading_shape(s);
    lemma_strip_trailing_shape(strip_leading(s));
    lemma_strip_trailing_keeps_start(strip_leading(s));
    let t = trimmed(s);
    lemma_strip_leading_keeps(t);
    if t.len() > 0 {
        assert(strip_trailing(t) == t);
    }
}

/// The `Referer` header of a chapter whose URL is printable ASCII is the
/// URL itself.
pub proof fn law_printable_referer_unchanged(url: Seq<char>)
    requires
        is_printable_ascii(url),
    ensures
        referer_headers(url)[referer_name()] == url,
{
    assert(vstd::utf8::is_ascii_chars(url));
    vstd::utf8::is_ascii_chars_encode_utf8(url);
    let b = encode_utf8_spec(url);
    assert(b =~= Seq::new(url.len(), |i| url[i] as u8));
    lemma_encode_printable_bytes(url);
}

proof fn lemma_decimal_digits(n: nat)
    ensures
        decimal(n).len() > 0,
        forall|i: int| 0 <= i < decimal(n).len() ==> '0' <= #[trigger] decimal(n)[i] <= '9',
    decreases n,
{
    if n >= 10 {
        lemma_decimal_digits(n / 10);
        assert forall|i: int| 0 <= i < decimal(n).len() implies '0' <= #[trigger] decimal(n)[i]
            <= '9' by {
            if i < decimal(n / 10).len() {
                assert(decimal(n)[i] == decimal(n / 10)[i]);
            } else {
                assert(decimal(n)[i] == digit_char(n % 10));
            }
        }
    }
}

/// The file name of page `n` starts with `n` in decimal; after it comes
/// either nothing or a `.` and the extension, and a query in the address
/// never reaches the name.
pub proof fn law_page_name_number_then_extension(address: Seq<char>, n: nat)
    ensures
        page_file_name(address, n).take(decimal(n).len() as int) == decimal(n),
        extension(address) is None ==> page_file_name(address, n) == decimal(n),
        forall|i: int|
            0 <= i < page_file_name(address, n).len() ==> #[trigger] page_file_name(address, n)[i]
                != '?',
{
    lemma_decimal_digits(n);
    match extension(address) {
        Some(ext) => {
            let w = without_query(ext);
            lemma_first_index_of(ext, '?');
            assert forall|j: int| 0 <= j < w.len() implies w[j] != '?' by {
                match first_index_of(ext, '?') {
                    Some(q) => {
                        assert(w[j] == ext[j]);
                    },
                    None => {},
                }
            }
            let name = decimal(n) + seq!['.'] + w;
            assert(name.take(decimal(n).len() as int) =~= decimal(n));
            assert forall|i: int| 0 <= i < name.len() implies #[trigger] name[i] != '?' by {
                if i < decimal(n).len() {
                    assert(name[i] == decimal(n)[i]);
                } else if i > decimal(n).len() {
                    assert(name[i] == w[i - decimal(n).len() - 1]);
                }
            }
        },
        None => {
            assert(decimal(n).take(decimal(n).len() as int) =~= decimal(n));
        },
    }
}

/// `pieces` with `sep` between each two of them.
pub open spec fn joined(pieces: Seq<Seq<char>>, sep: Seq<char>) -> Seq<char>
    decreases pieces.len(),
{
    if pieces.len() == 0 {
        Seq::empty()
    } else if pieces.len() == 1 {
        pieces[0]
    } else {
        pieces[0] + sep + joined(pieces.drop_first(), sep)
    }
}

proof fn lemma_split_from_joined(s: Seq<char>, sep: Seq<char>, cur: Seq<char>)
    requires
        sep.len() > 0,
    ensures
        split_from(s, sep, cur).len() >= 1,
        joined(split_from(s, sep, cur), sep) == cur + s,
    decreases s.len(),
{
    if s.len() == 0 {
        assert(cur + s =~= cur);
    } else if sep.len() <= s.len() && s.take(sep.len() as int) == sep {
        let rest = s.skip(sep.len() as int);
        lemma_split_from_joined(rest, sep, Seq::empty());
        let r = split_from(rest, sep, Seq::empty());
        let all = seq![cur] + r;
        assert(all.drop_first() =~= r);
        assert(all[0] == cur);
        assert(Seq::<char>::empty() + rest =~= rest);
        assert(cur + sep + rest =~= cur + s) by {
            assert(s =~= sep + rest);
        }
    } else {
        lemma_split_from_joined(s.drop_first(), sep, cur.push(s[0]));
        assert(cur.push(s[0]) + s.drop_first() =~= cur + s);
    }
}

/// Splitting loses nothing: the pieces, with the separator put back between
/// them, are the text that was split; and there is always at least one
/// piece.
pub proof fn law_split_then_join_gives_back_text(s: Seq<char>, sep: Seq<char>)
    requires
        sep.len() > 0,
    ensures
        split_pieces(s, sep).len() >= 1,
        joined(split_pieces(s, sep), sep) == s,
{
    lemma_split_from_joined(s, sep, Seq::empty());
    assert(Seq::<char>::empty() + s =~= s);
}

/// `w` is `groups` with each group's item list reversed, names and group
/// order kept.
pub open spec fn each_group_reversed<T>(groups: Seq<(String, Vec<T>)>, w: Seq<(String, Vec<T>)>) -> bool {
    &&& w.len() == groups.len()
    &&& forall|g: int|
        0 <= g < groups.len() ==> (#[trigger] w[g]).0 == groups[g].0 && w[g].1@
            == groups[g].1@.reverse()
}

proof fn lemma_flat_reversed_is_flat<T>(groups: Seq<(String, Vec<T>)>, w: Seq<(String, Vec<T>)>)
    requires
        each_group_reversed(groups, w),
    ensures
        flat_reversed(groups) == flat(w),
    decreases groups.len(),
{
    if groups.len() > 0 {
        let n = groups.len() - 1;
        assert(each_group_reversed(groups.drop_last(), w.drop_last())) by {
            assert forall|g: int| 0 <= g < n implies (#[trigger] w.drop_last()[g]).0
                == groups.drop_last()[g].0 && w.drop_last()[g].1@
                == groups.drop_last()[g].1@.reverse() by {
                assert(w.drop_last()[g] == w[g]);
                assert(groups.drop_last()[g] == groups[g]);
            }
        }
        lemma_flat_reversed_is_flat(groups.drop_last(), w.drop_last());
        assert(w.last() == w[n]);
    }
}

/// Reversed flattening is flattening of the groups each reversed: for `w`,
/// the groups with every item list reversed in place (names and group order
/// kept), reversed flattening of the groups reads the items in the order
/// that flattening `w` reads them, and a result (groups afterwards and
/// items returned) is one of reversed flattening exactly when it is one of
/// flattening `w` at the same group index.
pub proof fn law_reversed_flatten_is_flatten_of_reversed_groups<T: SetWhich + Clone>(
    groups: Seq<(String, Vec<T>)>,
    w: Seq<(String, Vec<T>)>,
    after: Seq<(String, Vec<T>)>,
    group_index: usize,
    items: Seq<T>,
)
    requires
        each_group_reversed(groups, w),
    ensures
        flat_order(groups, true) == flat_order(w, false),
        flat(w).len() == flat(groups).len(),
        flattened(groups, after, group_index, items, true) == flattened(
            w,
            after,
            group_index,
            items,
            false,
        ),
{
    lemma_flat_reversed_is_flat(groups, w);
    assert forall|g: int| 0 <= g < groups.len() implies (#[trigger] groups[g].1)@.len()
        == w[g].1@.len() by {}
    lemma_flat_same_lengths(groups, w);
}

/// What one step of a walk does, in terms of the walk's fields: the step
/// number is the number of steps taken plus one; the walk ends exactly when
/// the count is 0 or is positive and below the step number; otherwise the
/// step yields the known page at that position, or, when no page is known
/// there yet, asks for a fetch. The step counter always advances by one and
/// nothing else changes.
pub proof fn law_step_by_fields(v: PagesView)
    ensures
        next_step(v).0 == (PagesView { current_page: v.current_page + 1, ..v }),
        next_step(v).1 == Some(None::<crate::models::Page>) <==> (v.total == 0 || (v.total > 0
            && v.total < v.current_page + 1)),
        next_step(v).1 is None <==> (v.total != 0 && !(v.total > 0 && v.total < v.current_page + 1)
            && v.current_page >= v.chapter.pages.len()),
        (v.total != 0 && !(v.total > 0 && v.total < v.current_page + 1) && v.current_page
            < v.chapter.pages.len()) ==> next_step(v).1 == Some(
            Some(v.chapter.pages[v.current_page as int]),
        ),
{
}

/// A walk with a positive count asks for a fetch at every step within the
/// count whose page is not known yet: for `1 <= s <= total` with fewer than
/// `s` pages known, step `s` neither ends the walk nor yields a page.
pub proof fn law_unknown_pages_within_count_are_fetched(v: PagesView)
    requires
        v.total > 0,
        v.current_page + 1 <= v.total,
        v.current_page >= v.chapter.pages.len(),
    ensures
        next_step(v).1 is None,
{
}

proof fn lemma_grouped_links_at(sel: GroupedItemsSelector, items: Seq<usize>, start: nat)
    ensures
        sel.links_at(items, start) matches Ok(ls) ==> ls.len() == items.len() && forall|j: int|
            0 <= j < items.len() ==> sel.item_link_spec(items[j], (start + j) as nat) == Ok::<
                (Seq<char>, Seq<char>),
                Seq<char>,
            >(#[trigger] ls[j]),
    decreases items.len(),
{
    if items.len() > 0 {
        lemma_grouped_links_at(sel, items.drop_first(), start + 1);
        match sel.links_at(items, start) {
            Ok(ls) => {
                let rest = sel.links_at(items.drop_first(), start + 1)->Ok_0;
                assert forall|j: int| 0 <= j < items.len() implies sel.item_link_spec(
                    items[j],
                    (start + j) as nat,
                ) == Ok::<(Seq<char>, Seq<char>), Seq<char>>(#[trigger] ls[j]) by {
                    if j > 0 {
                        assert(ls[j] == rest[j - 1]);
                        assert(items[j] == items.drop_first()[j - 1]);
                        assert((start + 1 + (j - 1)) as nat == (start + j) as nat);
                    }
                }
            },
            Err(_) => {},
        }
    }
}

proof fn lemma_grouped_groups_at(
    sel: GroupedItemsSelector,
    outside: Seq<Seq<char>>,
    groups: Seq<usize>,
    start: nat,
)
    ensures
        sel.groups_at(outside, groups, start) matches Ok(gs) ==> gs.len() == groups.len()
            && forall|g: int|
            0 <= g < groups.len() ==> sel.group_links_spec(groups[g]) == Ok::<
                Seq<(Seq<char>, Seq<char>)>,
                Seq<char>,
            >((#[trigger] gs[g]).1),
    decreases groups.len(),
{
    if groups.len() > 0 {
        lemma_grouped_groups_at(sel, outside, groups.drop_first(), start + 1);
        match sel.groups_at(outside, groups, start) {
            Ok(gs) => {
                let rest = sel.groups_at(outside, groups.drop_first(), start + 1)->Ok_0;
                assert forall|g: int| 0 <= g < groups.len() implies sel.group_links_spec(groups[g])
                    == Ok::<Seq<(Seq<char>, Seq<char>)>, Seq<char>>((#[trigger] gs[g]).1) by {
                    if g > 0 {
                        assert(gs[g] == rest[g - 1]);
                        assert(groups[g] == groups.drop_first()[g - 1]);
                    }
                }
            },
            Err(_) => {},
        }
    }
}

/// Item `j` of group `g` of the page that `sel` reads: the `j`-th element
/// that the item selector matches inside the `g`-th group element.
pub open spec fn grouped_item(sel: GroupedItemsSelector, g: int, j: int) -> usize {
    let src = sel.source();
    element_matches(src, doc_matches(src, sel.group_dom@)[g], sel.items_dom@)[j]
}

/// `link` is what item `item` reads as: its address is the item's URL
/// attribute, prefixed when a prefix is set, trimmed; its title, trimmed,
/// is the item's title attribute when one is named, else, when a title
/// element selector is set, the named attribute (or, with none named, the
/// first text) of the first element that selector matches inside the item,
/// else the item's own first text.
pub open spec fn grouped_link_read(sel: GroupedItemsSelector, item: usize, link: (Seq<char>, Seq<char>)) -> bool {
    let src = sel.source();
    let found = element_matches(src, item, sel.items_title_dom@);
    let url = element_attr(src, item, sel.items_url_attr@);
    &&& url is Some
    &&& link.1 == trimmed(
        if sel.items_url_prefix@.len() > 0 {
            sel.items_url_prefix@ + url->Some_0
        } else {
            url->Some_0
        },
    )
    &&& sel.items_title_attr@.len() > 0 ==> {
        &&& element_attr(src, item, sel.items_title_attr@) is Some
        &&& link.0 == trimmed(element_attr(src, item, sel.items_title_attr@)->Some_0)
    }
    &&& (sel.items_title_attr@.len() == 0 && sel.items_title_dom@.len() > 0) ==> {
        &&& found.len() > 0
        &&& sel.items_title_dom_attr@.len() == 0 ==> {
            &&& element_first_text(src, found[0]) is Some
            &&& link.0 == trimmed(element_first_text(src, found[0])->Some_0)
        }
        &&& sel.items_title_dom_attr@.len() > 0 ==> {
            &&& element_attr(src, found[0], sel.items_title_dom_attr@) is Some
            &&& link.0 == trimmed(element_attr(src, found[0], sel.items_title_dom_attr@)->Some_0)
        }
    }
    &&& (sel.items_title_attr@.len() == 0 && sel.items_title_dom@.len() == 0) ==> {
        &&& element_first_text(src, item) is Some
        &&& link.0 == trimmed(element_first_text(src, item)->Some_0)
    }
}

/// What each item of a successful grouped read is: item `j` of group `g`
/// is read from the `j`-th element that the item selector matches inside
/// the `g`-th group element, its title coming from the item's title
/// attribute, or from the element that the title selector matches inside
/// it (its attribute or first text), or from the item's own text, and its
/// address from its URL attribute with the prefix.
pub proof fn law_grouped_titles_come_from_title_element(sel: GroupedItemsSelector)
    ensures
        sel.gen_spec() matches Ok(gs) ==> forall|g: int, j: int|
            0 <= g < gs.len() && 0 <= j < gs[g].1.len() ==> #[trigger] grouped_link_read(
                sel,
                grouped_item(sel, g, j),
                gs[g].1[j],
            ),
{
    match sel.gen_spec() {
        Ok(gs) => {
            let src = sel.source();
            let outside = sel.outside_names_spec()->Ok_0;
            let groups = doc_matches(src, sel.group_dom@);
            lemma_grouped_groups_at(sel, outside, groups, 0);
            assert forall|g: int, j: int|
                0 <= g < gs.len() && 0 <= j < gs[g].1.len() implies #[trigger] grouped_link_read(
                sel,
                grouped_item(sel, g, j),
                gs[g].1[j],
            ) by {
                let group = groups[g];
                assert(sel.group_links_spec(group) == Ok::<
                    Seq<(Seq<char>, Seq<char>)>,
                    Seq<char>,
                >(gs[g].1));
                let items = element_matches(src, group, sel.items_dom@);
                lemma_grouped_links_at(sel, items, 0);
                assert(sel.item_link_spec(items[j], j as nat) == Ok::<
                    (Seq<char>, Seq<char>),
                    Seq<char>,
                >(gs[g].1[j]));
            }
        },
        Err(_) => {},
    }
}

proof fn lemma_list_entries_at(q: ListQuery, source: Seq<char>, elements: Seq<usize>)
    ensures
        q.entries_at(source, elements) matches Ok(es) ==> es.len() == elements.len() && forall|
            k: int,
        | 0 <= k < elements.len() ==> q.entry_spec(source, elements[k]) == Ok::<Entry, Seq<char>>(
            #[trigger] es[k],
        ),
    decreases elements.len(),
{
    if elements.len() > 0 {
        lemma_list_entries_at(q, source, elements.drop_first());
        match q.entries_at(source, elements) {
            Ok(es) => {
                let rest = q.entries_at(source, elements.drop_first())->Ok_0;
                assert forall|k: int| 0 <= k < elements.len() implies q.entry_spec(
                    source,
                    elements[k],
                ) == Ok::<Entry, Seq<char>>(#[trigger] es[k]) by {
                    if k > 0 {
                        assert(es[k] == rest[k - 1]);
                        assert(elements[k] == elements.drop_first()[k - 1]);
                    }
                }
            },
            Err(_) => {},
        }
    }
}

/// The link of entry `k` of the list page `source` that `q` reads: the
/// `k`-th element that the list selector matches, or, when entries are
/// parents, the first element inside it that the link selector matches.
pub open spec fn listed_link(q: ListQuery, source: Seq<char>, k: int) -> usize {
    let element = doc_matches(source, q.list_selector())[k];
    if q.parent_dom@.len() > 0 {
        element_matches(source, element, q.link_dom@)[0]
    } else {
        element
    }
}

/// `title` is `chosen`, trimmed, when that is not empty, else the trimmed
/// first text of `link`, which then exists.
pub open spec fn title_or_own_text(source: Seq<char>, link: usize, chosen: Seq<char>, title: Seq<char>) -> bool {
    &&& chosen.len() > 0 ==> title == trimmed(chosen)
    &&& chosen.len() == 0 ==> element_first_text(source, link) is Some && title == trimmed(
        element_first_text(source, link)->Some_0,
    )
}

/// `entry` is what the link `link` of list element `element` reads as:
/// its address is the link's address attribute, prefixed when a prefix is
/// set; its title comes from the link-text attribute when one is named,
/// else from the title attribute when one is named, else from the first
/// text of the first element that the title element selector matches
/// inside the link when that selector is set (that element must exist with
/// a text even when an attribute gives the title), falling back to the
/// link's own text when what was chosen is empty; for parent entries the
/// cover is the prefixed cover attribute of the first cover element inside
/// the parent, and other entries have none.
pub open spec fn list_entry_read(q: ListQuery, source: Seq<char>, element: usize, link: usize, entry: Entry) -> bool {
    let url = element_attr(source, link, q.link_attr@);
    let found = element_matches(source, link, q.target_text_dom@);
    let lta = element_attr(source, link, q.link_text_attr@);
    let tta = element_attr(source, link, q.target_text_attr@);
    let covers = element_matches(source, element, q.cover_dom@);
    &&& url is Some
    &&& entry.1 == if q.link_prefix@.len() > 0 {
        q.link_prefix@ + url->Some_0
    } else {
        url->Some_0
    }
    &&& q.target_text_dom@.len() > 0 ==> found.len() > 0 && element_first_text(source, found[0]) is Some
    &&& q.link_text_attr@.len() > 0 ==> lta is Some && title_or_own_text(source, link, lta->Some_0, entry.0)
    &&& (q.link_text_attr@.len() == 0 && q.target_text_attr@.len() > 0) ==> tta is Some
        && title_or_own_text(source, link, tta->Some_0, entry.0)
    &&& (q.link_text_attr@.len() == 0 && q.target_text_attr@.len() == 0 && q.target_text_dom@.len() > 0)
        ==> title_or_own_text(source, link, element_first_text(source, found[0])->Some_0, entry.0)
    &&& (q.link_text_attr@.len() == 0 && q.target_text_attr@.len() == 0 && q.target_text_dom@.len() == 0)
        ==> title_or_own_text(source, link, Seq::empty(), entry.0)
    &&& q.parent_dom@.len() > 0 ==> {
        &&& covers.len() > 0
        &&& element_attr(source, covers[0], q.cover_attr@) is Some
        &&& entry.2 == Some(q.cover_prefix@ + element_attr(source, covers[0], q.cover_attr@)->Some_0)
    }
    &&& q.parent_dom@.len() == 0 ==> entry.2 is None
}

/// What each entry of a successful list read is: entry `k` is read from the
/// `k`-th element that the list selector matches (its first link, when
/// entries are parents), with its title from the link-text attribute, the
/// title attribute or the title element inside the link (falling back to
/// the link's own text), its prefixed address and, for parents, its
/// prefixed cover.
pub proof fn law_list_titles_come_from_text_element(q: ListQuery, source: Seq<char>)
    ensures
        q.entries_spec(source) matches Ok(es) ==> forall|k: int|
            0 <= k < es.len() ==> #[trigger] list_entry_read(
                q,
                source,
                doc_matches(source, q.list_selector())[k],
                listed_link(q, source, k),
                es[k],
            ),
{
    match q.entries_spec(source) {
        Ok(es) => {
            let m = doc_matches(source, q.list_selector());
            lemma_list_entries_at(q, source, m);
            assert forall|k: int| 0 <= k < es.len() implies #[trigger] list_entry_read(
                q,
                source,
                doc_matches(source, q.list_selector())[k],
                listed_link(q, source, k),
                es[k],
            ) by {
                assert(q.entry_spec(source, m[k]) == Ok::<Entry, Seq<char>>(es[k]));
                let link = listed_link(q, source, k);
                assert(q.link_spec(source, link) is Ok);
                assert(q.title_spec(source, link) is Ok);
            }
        },
        Err(_) => {},
    }
}

proof fn lemma_links_at(q: LinkQuery, source: Seq<char>, elements: Seq<usize>)
    ensures
        q.links_at(source, elements) matches Ok(ls) ==> ls.len() == elements.len() && forall|
            k: int,
        | 0 <= k < elements.len() ==> q.entry_spec(source, elements[k]) == Ok::<
            (Seq<char>, Seq<char>),
            Seq<char>,
        >(#[trigger] ls[k]),
    decreases elements.len(),
{
    if elements.len() > 0 {
        lemma_links_at(q, source, elements.drop_first());
        match q.links_at(source, elements) {
            Ok(ls) => {
                let rest = q.links_at(source, elements.drop_first())->Ok_0;
                assert forall|k: int| 0 <= k < elements.len() implies q.entry_spec(
                    source,
                    elements[k],
                ) == Ok::<(Seq<char>, Seq<char>), Seq<char>>(#[trigger] ls[k]) by {
                    if k > 0 {
                        assert(ls[k] == rest[k - 1]);
                        assert(elements[k] == elements.drop_first()[k - 1]);
                    }
                }
            },
            Err(_) => {},
        }
    }
}

/// The link of entry `k` of the page `source` that `q` reads: the `k`-th
/// element that `target` matches, or, without `target`, the first element
/// that `find` matches inside the `k`-th element that `selector` matches.
pub open spec fn found_link(q: LinkQuery, source: Seq<char>, k: int) -> usize {
    let element = doc_matches(source, q.list_selector())[k];
    match q.target {
        Some(_) => element,
        None => element_matches(source, element, q.find@)[0],
    }
}

/// `link_read` is what the link `link` reads as: its address is its
/// `href`, prefixed when a prefix is set; its title comes from the
/// `text_attr` attribute when one is named, else from the first text of
/// the first element that `sub_dom_text` matches inside the link when that
/// is set (that element must exist with a text even when an attribute gives
/// the title), falling back to the link's own text when what was chosen is
/// empty.
pub open spec fn link_read(q: LinkQuery, source: Seq<char>, link: usize, read: (Seq<char>, Seq<char>)) -> bool {
    let url = element_attr(source, link, "href"@);
    &&& url is Some
    &&& read.1 == if q.href_prefix@.len() > 0 {
        q.href_prefix@ + url->Some_0
    } else {
        url->Some_0
    }
    &&& q.sub_dom_text matches Some(sub) ==> {
        let found = element_matches(source, link, sub@);
        &&& found.len() > 0
        &&& element_first_text(source, found[0]) is Some
        &&& q.text_attr is None ==> title_or_own_text(
            source,
            link,
            element_first_text(source, found[0])->Some_0,
            read.0,
        )
    }
    &&& q.text_attr matches Some(a) ==> element_attr(source, link, a@) is Some && title_or_own_text(
        source,
        link,
        element_attr(source, link, a@)->Some_0,
        read.0,
    )
    &&& (q.text_attr is None && q.sub_dom_text is None) ==> title_or_own_text(
        source,
        link,
        Seq::empty(),
        read.0,
    )
}

/// What each link of a successful read is: link `k` is the `k`-th element
/// that `target` matches, or the first match of `find` inside the `k`-th
/// element that `selector` matches, read with its title from `text_attr`,
/// or from the `sub_dom_text` element inside it (falling back to its own
/// text), and its prefixed `href`.
pub proof fn law_link_titles_come_from_sub_element(q: LinkQuery, source: Seq<char>)
    ensures
        q.links_spec(source) matches Ok(ls) ==> forall|k: int|
            0 <= k < ls.len() ==> #[trigger] link_read(q, source, found_link(q, source, k), ls[k]),
{
    match q.links_spec(source) {
        Ok(ls) => {
            let m = doc_matches(source, q.list_selector());
            lemma_links_at(q, source, m);
            assert forall|k: int| 0 <= k < ls.len() implies #[trigger] link_read(
                q,
                source,
                found_link(q, source, k),
                ls[k],
            ) by {
                assert(q.entry_spec(source, m[k]) == Ok::<(Seq<char>, Seq<char>), Seq<char>>(ls[k]));
                let link = found_link(q, source, k);
                assert(q.link_spec(source, link) is Ok);
                assert(q.title_spec(source, link) is Ok);
            }
        },
        Err(_) => {},
    }
}

/// No source tells `http` from `https`: every page pattern of every route
/// is either the pattern that matches nothing or begins with `^https?://`,
/// the anchor that accepts both schemes, and what follows that anchor is
/// the same whichever scheme a URL uses.
pub proof fn law_routes_accept_both_schemes()
    ensures
        forall|i: int|
            0 <= i < route_table().len() ==> {
                &&& (#[trigger] route_table()[i]).1 == no_page_pattern() || route_table()[i].1
                    == "^https?://"@ + route_table()[i].1.skip("^https?://"@.len() as int)
                &&& route_table()[i].2 == no_page_pattern() || route_table()[i].2 == "^https?://"@
                    + route_table()[i].2.skip("^https?://"@.len() as int)
            },
{
    assert forall|i: int| 0 <= i < route_table().len() implies {
        &&& (#[trigger] route_table()[i]).1 == no_page_pattern() || route_table()[i].1
            == "^https?://"@ + route_table()[i].1.skip("^https?://"@.len() as int)
        &&& route_table()[i].2 == no_page_pattern() || route_table()[i].2 == "^https?://"@
            + route_table()[i].2.skip("^https?://"@.len() as int)
    } by {
        let scheme = "^https?://"@;
        match route_sources()[i].1 {
            Some(r) => {
                assert((scheme + r).skip(scheme.len() as int) =~= r);
            },
            None => {},
        }
        match route_sources()[i].2 {
            Some(r) => {
                assert((scheme + r).skip(scheme.len() as int) =~= r);
            },
            None => {},
        }
    }
}

} // verus!
