//! Reading chapter lists that a page shows in several groups: each group has
//! a name (inside the group, or taken by position from elsewhere on the
//! page) and a list of links.
use std::rc::Rc;
use vstd::prelude::*;
use crate::dom::{
    attr, css_valid, doc_matches, element_attr, element_first_text, element_matches, first_text,
    parse_document, parse_selector, prepend_ok, select, select_within, selector_error, Document,
};
use crate::error::Error;
use crate::models::FromLink;
use crate::text::{concat, decimal, decimal_string, push_str, trim, trimmed};

verus! {

/// `prefix`, the decimal `n`, and a closing backquote.
pub open spec fn at_location(prefix: Seq<char>, n: nat) -> Seq<char> {
    prefix + decimal(n) + "`"@
}

/// `prefix`, `name`, then "` found at location `", the decimal `n` and a
/// closing backquote.
pub open spec fn named_at_location(prefix: Seq<char>, name: Seq<char>, n: nat) -> Seq<char> {
    prefix + name + "` found at location `"@ + decimal(n) + "`"@
}

/// The name of group `i` (from 0) when the page gives none.
pub open spec fn default_group_name(i: nat) -> Seq<char> {
    "第"@ + decimal(i + 1) + "组"@
}

fn at_location_message(prefix: &str, n: usize) -> (r: Error)
    ensures
        r.message@ == at_location(prefix@, n as nat),
{
    let mut m = String::from_str(prefix);
    let d = decimal_string(n as u64);
    push_str(&mut m, d.as_str());
    push_str(&mut m, "`");
    Error { message: m }
}

fn named_at_location_message(prefix: &str, name: &str, n: usize) -> (r: Error)
    ensures
        r.message@ == named_at_location(prefix@, name@, n as nat),
{
    let mut m = String::from_str(prefix);
    push_str(&mut m, name);
    push_str(&mut m, "` found at location `");
    let d = decimal_string(n as u64);
    push_str(&mut m, d.as_str());
    push_str(&mut m, "`");
    Error { message: m }
}

fn default_group_name_string(i: usize) -> (r: String)
    requires
        i < usize::MAX,
    ensures
        r@ == default_group_name(i as nat),
{
    let mut m = String::from_str("第");
    let d = decimal_string((i + 1) as u64);
    push_str(&mut m, d.as_str());
    push_str(&mut m, "组");
    m
}

/// Where the groups, their names and their items are on a page.
pub struct GroupedItemsSelector<'a> {
    pub document: Rc<Document>,
    /// Selects each group.
    pub group_dom: &'a str,
    /// Selects a group's name inside the group; empty when names are outside.
    pub inside_group_name_dom: &'a str,
    /// Selects the group names, in group order, anywhere on the page.
    pub outside_group_name_dom: &'a str,
    /// Selects the items inside a group.
    pub items_dom: &'a str,
    /// The item attribute that holds its title; empty for none.
    pub items_title_attr: &'a str,
    /// Selects the element inside an item that holds its title.
    pub items_title_dom: &'a str,
    /// The attribute of that element that holds the title; empty for its
    /// text.
    pub items_title_dom_attr: &'a str,
    /// The item attribute that holds its URL.
    pub items_url_attr: &'a str,
    /// Put in front of every item URL.
    pub items_url_prefix: &'a str,
}

/// A group name and the (title, URL) links of its items.
pub type GroupLinks = (Seq<char>, Seq<(Seq<char>, Seq<char>)>);

/// The texts of `elements` in order, or the error for the first without
/// text; `start` is the position of the first of them.
pub open spec fn names_at(source: Seq<char>, elements: Seq<usize>, start: nat) -> Result<
    Seq<Seq<char>>,
    Seq<char>,
>
    decreases elements.len(),
{
    if elements.len() == 0 {
        Ok(Seq::empty())
    } else {
        match element_first_text(source, elements[0]) {
            None => Err(at_location("No group name text found at location `"@, start)),
            Some(t) => prepend_ok(seq![t], names_at(source, elements.drop_first(), start + 1)),
        }
    }
}

impl<'a> GroupedItemsSelector<'a> {
    pub open spec fn source(&self) -> Seq<char> {
        (*self.document).source_view()
    }

    /// The group names found outside the groups.
    pub open spec fn outside_names_spec(&self) -> Result<Seq<Seq<char>>, Seq<char>> {
        let sel = self.outside_group_name_dom@;
        if sel.len() == 0 {
            Ok(Seq::empty())
        } else if !css_valid(sel) {
            Err(selector_error(sel))
        } else {
            names_at(self.source(), doc_matches(self.source(), sel), 0)
        }
    }

    /// The name of group `i`, the element at `group`.
    pub open spec fn group_name_spec(&self, outside: Seq<Seq<char>>, group: usize, i: nat) -> Result<
        Seq<char>,
        Seq<char>,
    > {
        let inside = self.inside_group_name_dom@;
        if inside.len() > 0 {
            if !css_valid(inside) {
                Err(selector_error(inside))
            } else {
                let found = element_matches(self.source(), group, inside);
                if found.len() > 0 {
                    match element_first_text(self.source(), found[0]) {
                        None => Err(named_at_location("No group name `"@, inside, i)),
                        Some(t) => Ok(t),
                    }
                } else {
                    Ok(default_group_name(i))
                }
            }
        } else if i < outside.len() {
            Ok(outside[i as int])
        } else {
            Ok(default_group_name(i))
        }
    }

    /// The title of item `j`, the element at `item`, before trimming.
    pub open spec fn item_title_spec(&self, item: usize, j: nat) -> Result<Seq<char>, Seq<char>> {
        let src = self.source();
        let title_attr = self.items_title_attr@;
        let title_dom = self.items_title_dom@;
        let title_dom_attr = self.items_title_dom_attr@;
        if title_attr.len() > 0 {
            match element_attr(src, item, title_attr) {
                None => Err(named_at_location("No item title attribute `"@, title_attr, j)),
                Some(t) => Ok(t),
            }
        } else if title_dom.len() > 0 {
            if !css_valid(title_dom) {
                Err(selector_error(title_dom))
            } else {
                let found = element_matches(src, item, title_dom);
                if found.len() == 0 {
                    Err(at_location("No title dom found at location `"@, j))
                } else if title_dom_attr.len() == 0 {
                    match element_first_text(src, found[0]) {
                        None => Err(at_location("No item title dom text found at location `"@, j)),
                        Some(t) => Ok(t),
                    }
                } else {
                    match element_attr(src, found[0], title_dom_attr) {
                        None => Err(
                            named_at_location("No item title dom attribute `"@, title_dom_attr, j),
                        ),
                        Some(t) => Ok(t),
                    }
                }
            }
        } else {
            match element_first_text(src, item) {
                None => Err(at_location("No item title text found at location `"@, j)),
                Some(t) => Ok(t),
            }
        }
    }

    /// The trimmed (title, URL) link of item `j`, the element at `item`.
    pub open spec fn item_link_spec(&self, item: usize, j: nat) -> Result<
        (Seq<char>, Seq<char>),
        Seq<char>,
    > {
        match self.item_title_spec(item, j) {
            Err(m) => Err(m),
            Ok(title) => match element_attr(self.source(), item, self.items_url_attr@) {
                None => Err(named_at_location("No item url attribute `"@, self.items_url_attr@, j)),
                Some(u) => {
                    let url = if self.items_url_prefix@.len() > 0 {
                        self.items_url_prefix@ + u
                    } else {
                        u
                    };
                    Ok((trimmed(title), trimmed(url)))
                },
            },
        }
    }

    /// The links of `items` in order, or the first error; `start` is the
    /// position of the first of them.
    pub open spec fn links_at(&self, items: Seq<usize>, start: nat) -> Result<
        Seq<(Seq<char>, Seq<char>)>,
        Seq<char>,
    >
        decreases items.len(),
    {
        if items.len() == 0 {
            Ok(Seq::empty())
        } else {
            match self.item_link_spec(items[0], start) {
                Err(m) => Err(m),
                Ok(link) => prepend_ok(seq![link], self.links_at(items.drop_first(), start + 1)),
            }
        }
    }

    /// The links of the items of the group at `group`.
    pub open spec fn group_links_spec(&self, group: usize) -> Result<
        Seq<(Seq<char>, Seq<char>)>,
        Seq<char>,
    > {
        if !css_valid(self.items_dom@) {
            Err(selector_error(self.items_dom@))
        } else {
            self.links_at(element_matches(self.source(), group, self.items_dom@), 0)
        }
    }

    /// The names and links of `groups` in order, or the first error.
    pub open spec fn groups_at(&self, outside: Seq<Seq<char>>, groups: Seq<usize>, start: nat) -> Result<
        Seq<GroupLinks>,
        Seq<char>,
    >
        decreases groups.len(),
    {
        if groups.len() == 0 {
            Ok(Seq::empty())
        } else {
            match self.group_name_spec(outside, groups[0], start) {
                Err(m) => Err(m),
                Ok(name) => match self.group_links_spec(groups[0]) {
                    Err(m) => Err(m),
                    Ok(links) => prepend_ok(
                        seq![(name, links)],
                        self.groups_at(outside, groups.drop_first(), start + 1),
                    ),
                },
            }
        }
    }

    /// What `gen` reads from the page: every group's name and links, or the
    /// first error.
    pub open spec fn gen_spec(&self) -> Result<Seq<GroupLinks>, Seq<char>> {
        match self.outside_names_spec() {
            Err(m) => Err(m),
            Ok(outside) => if !css_valid(self.group_dom@) {
                Err(selector_error(self.group_dom@))
            } else {
                self.groups_at(outside, doc_matches(self.source(), self.group_dom@), 0)
            },
        }
    }

    fn outside_names(&self) -> (r: Result<Vec<String>, Error>)
        ensures
            match self.outside_names_spec() {
                Ok(ns) => r matches Ok(v) && v@.map_values(|x: String| x@) == ns,
                Err(m) => r matches Err(e) && e.message@ == m,
            },
    {
        if self.outside_group_name_dom.is_empty() {
            let v: Vec<String> = Vec::new();
            assert(v@.map_values(|x: String| x@) =~= Seq::<Seq<char>>::empty());
            return Ok(v);
        }
        let sel = parse_selector(self.outside_group_name_dom)?;
        let elements = select(&*self.document, &sel);
        let ghost src = self.source();
        let ghost all = elements@;
        let mut names: Vec<String> = Vec::new();
        let mut i: usize = 0;
        assert(all.skip(0) == all);
        assert(prepend_ok(Seq::<Seq<char>>::empty(), names_at(src, all, 0)) == names_at(src, all, 0)) by {
            match names_at(src, all, 0) {
                Ok(t) => {
                    assert(Seq::<Seq<char>>::empty() + t == t);
                },
                Err(_) => {},
            }
        }
        while i < elements.len()
            invariant
                i <= all.len(),
                all == elements@,
                src == self.source(),
                self.outside_group_name_dom@.len() > 0,
                css_valid(self.outside_group_name_dom@),
                all == doc_matches(src, self.outside_group_name_dom@),
                names_at(src, all, 0) == prepend_ok(
                    names@.map_values(|x: String| x@),
                    names_at(src, all.skip(i as int), i as nat),
                ),
            decreases all.len() - i,
        {
            let ghost rest = all.skip(i as int);
            assert(rest[0] == all[i as int]);
            assert(rest.drop_first() == all.skip(i + 1));
            let ghost before = names@.map_values(|x: String| x@);
            match first_text(&*self.document, elements[i]) {
                None => {
                    return Err(at_location_message("No group name text found at location `", i));
                },
                Some(t) => {
                    let ghost tv = t@;
                    names.push(t);
                    proof {
                        assert(names@.map_values(|x: String| x@) =~= before + seq![tv]);
                        match names_at(src, all.skip(i + 1), (i + 1) as nat) {
                            Ok(r) => {
                                assert(before + (seq![tv] + r) =~= before + seq![tv] + r);
                            },
                            Err(_) => {},
                        }
                    }
                },
            }
            i = i + 1;
        }
        proof {
            assert(all.skip(all.len() as int) =~= Seq::<usize>::empty());
            assert(names@.map_values(|x: String| x@) + Seq::<Seq<char>>::empty() =~= names@.map_values(
                |x: String| x@,
            ));
        }
        Ok(names)
    }

    fn group_name(&self, outside: &Vec<String>, group: usize, i: usize) -> (r: Result<
        String,
        Error,
    >)
        requires
            i < usize::MAX,
        ensures
            match self.group_name_spec(outside@.map_values(|x: String| x@), group, i as nat) {
                Ok(n) => r matches Ok(s) && s@ == n,
                Err(m) => r matches Err(e) && e.message@ == m,
            },
    {
        if !self.inside_group_name_dom.is_empty() {
            let sel = parse_selector(self.inside_group_name_dom)?;
            let found = select_within(&*self.document, group, &sel);
            if found.len() > 0 {
                match first_text(&*self.document, found[0]) {
                    None => Err(
                        named_at_location_message(
                            "No group name `",
                            self.inside_group_name_dom,
                            i,
                        ),
                    ),
                    Some(t) => Ok(t),
                }
            } else {
                Ok(default_group_name_string(i))
            }
        } else if i < outside.len() {
            Ok(outside[i].clone())
        } else {
            Ok(default_group_name_string(i))
        }
    }

    fn item_title(&self, item: usize, j: usize) -> (r: Result<String, Error>)
        ensures
            match self.item_title_spec(item, j as nat) {
                Ok(t) => r matches Ok(s) && s@ == t,
                Err(m) => r matches Err(e) && e.message@ == m,
            },
    {
        let doc = &*self.document;
        if !self.items_title_attr.is_empty() {
            match attr(doc, item, self.items_title_attr) {
                None => Err(
                    named_at_location_message("No item title attribute `", self.items_title_attr, j),
                ),
                Some(t) => Ok(t),
            }
        } else if !self.items_title_dom.is_empty() {
            let sel = parse_selector(self.items_title_dom)?;
            let found = select_within(doc, item, &sel);
            if found.len() == 0 {
                Err(at_location_message("No title dom found at location `", j))
            } else if self.items_title_dom_attr.is_empty() {
                match first_text(doc, found[0]) {
                    None => Err(at_location_message("No item title dom text found at location `", j)),
                    Some(t) => Ok(t),
                }
            } else {
                match attr(doc, found[0], self.items_title_dom_attr) {
                    None => Err(
                        named_at_location_message(
                            "No item title dom attribute `",
                            self.items_title_dom_attr,
                            j,
                        ),
                    ),
                    Some(t) => Ok(t),
                }
            }
        } else {
            match first_text(doc, item) {
                None => Err(at_location_message("No item title text found at location `", j)),
                Some(t) => Ok(t),
            }
        }
    }

    fn item_link(&self, item: usize, j: usize) -> (r: Result<(String, String), Error>)
        ensures
            match self.item_link_spec(item, j as nat) {
                Ok(l) => r matches Ok(p) && p.0@ == l.0 && p.1@ == l.1,
                Err(m) => r matches Err(e) && e.message@ == m,
            },
    {
        let title = self.item_title(item, j)?;
        match attr(&*self.document, item, self.items_url_attr) {
            None => Err(
                named_at_location_message("No item url attribute `", self.items_url_attr, j),
            ),
            Some(u) => {
                let url = if !self.items_url_prefix.is_empty() {
                    concat(self.items_url_prefix, u.as_str())
                } else {
                    u
                };
                Ok((trim(title.as_str()), trim(url.as_str())))
            },
        }
    }

    fn group_items<T: FromLink>(&self, group: usize) -> (r: Result<Vec<T>, Error>)
        ensures
            match self.group_links_spec(group) {
                Ok(ls) => r matches Ok(v) && v@.len() == ls.len() && forall|j: int|
                    0 <= j < ls.len() ==> (#[trigger] v@[j]).made_from_link(ls[j].0, ls[j].1),
                Err(m) => r matches Err(e) && e.message@ == m,
            },
    {
        let sel = parse_selector(self.items_dom)?;
        let elements = select_within(&*self.document, group, &sel);
        let ghost all = elements@;
        let ghost links_all = self.links_at(all, 0);
        let ghost mut acc: Seq<(Seq<char>, Seq<char>)> = Seq::empty();
        let mut items: Vec<T> = Vec::new();
        let mut j: usize = 0;
        assert(all.skip(0) == all);
        assert(prepend_ok(acc, links_all) == links_all) by {
            match links_all {
                Ok(t) => {
                    assert(acc + t == t);
                },
                Err(_) => {},
            }
        }
        while j < elements.len()
            invariant
                j <= all.len(),
                all == elements@,
                all == element_matches(self.source(), group, self.items_dom@),
                css_valid(self.items_dom@),
                links_all == self.links_at(all, 0),
                links_all == prepend_ok(acc, self.links_at(all.skip(j as int), j as nat)),
                acc.len() == j,
                items@.len() == j,
                forall|k: int|
                    0 <= k < j ==> (#[trigger] items@[k]).made_from_link(acc[k].0, acc[k].1),
            decreases all.len() - j,
        {
            let ghost rest = all.skip(j as int);
            assert(rest[0] == all[j as int]);
            assert(rest.drop_first() == all.skip(j + 1));
            let (title, url) = self.item_link(elements[j], j)?;
            let item = T::from_link(title.as_str(), url.as_str());
            items.push(item);
            proof {
                let link = (title@, url@);
                match self.links_at(all.skip(j + 1), (j + 1) as nat) {
                    Ok(r) => {
                        assert(acc + (seq![link] + r) =~= acc.push(link) + r);
                    },
                    Err(_) => {},
                }
                acc = acc.push(link);
            }
            j = j + 1;
        }
        proof {
            assert(all.skip(all.len() as int) =~= Seq::<usize>::empty());
            assert(acc + Seq::<(Seq<char>, Seq<char>)>::empty() =~= acc);
        }
        Ok(items)
    }

    /// Reads every group of the page: its name (from inside the group, else
    /// by position from the outside names, else "第n组") and its items, each
    /// built from its trimmed title and trimmed, prefixed URL.
    pub fn gen<T: FromLink>(&self) -> (r: Result<Vec<(String, Vec<T>)>, Error>)
        ensures
            match self.gen_spec() {
                Ok(gs) => r matches Ok(v) && v@.len() == gs.len() && forall|g: int|
                    0 <= g < gs.len() ==> {
                        &&& (#[trigger] v@[g]).0@ == gs[g].0
                        &&& v@[g].1@.len() == gs[g].1.len()
                        &&& forall|j: int|
                            0 <= j < gs[g].1.len() ==> (#[trigger] v@[g].1@[j]).made_from_link(
                                gs[g].1[j].0,
                                gs[g].1[j].1,
                            )
                    },
                Err(m) => r matches Err(e) && e.message@ == m,
            },
    {
        let outside = self.outside_names()?;
        let ghost outside_v = outside@.map_values(|x: String| x@);
        let sel = parse_selector(self.group_dom)?;
        let groups = select(&*self.document, &sel);
        let ghost all = groups@;
        let ghost all_spec = self.groups_at(outside_v, all, 0);
        let ghost mut acc: Seq<GroupLinks> = Seq::empty();
        let mut grouped: Vec<(String, Vec<T>)> = Vec::new();
        let mut i: usize = 0;
        assert(all.skip(0) == all);
        assert(prepend_ok(acc, all_spec) == all_spec) by {
            match all_spec {
                Ok(t) => {
                    assert(acc + t == t);
                },
                Err(_) => {},
            }
        }
        while i < groups.len()
            invariant
                i <= all.len(),
                all == groups@,
                outside_v == outside@.map_values(|x: String| x@),
                self.outside_names_spec() == Ok::<Seq<Seq<char>>, Seq<char>>(outside_v),
                css_valid(self.group_dom@),
                all == doc_matches(self.source(), self.group_dom@),
                all_spec == self.groups_at(outside_v, all, 0),
                all_spec == prepend_ok(acc, self.groups_at(outside_v, all.skip(i as int), i as nat)),
                acc.len() == i,
                grouped@.len() == i,
                forall|g: int|
                    0 <= g < i ==> {
                        &&& (#[trigger] grouped@[g]).0@ == acc[g].0
                        &&& grouped@[g].1@.len() == acc[g].1.len()
                        &&& forall|j: int|
                            0 <= j < acc[g].1.len() ==> (#[trigger] grouped@[g].1@[j]).made_from_link(
                                acc[g].1[j].0,
                                acc[g].1[j].1,
                            )
                    },
            decreases all.len() - i,
        {
            let ghost rest = all.skip(i as int);
            assert(rest[0] == all[i as int]);
            assert(rest.drop_first() == all.skip(i + 1));
            let name = self.group_name(&outside, groups[i], i)?;
            let items: Vec<T> = self.group_items(groups[i])?;
            let ghost entry: GroupLinks = (name@, self.group_links_spec(groups@[i as int])->Ok_0);
            grouped.push((name, items));
            proof {
                match self.groups_at(outside_v, all.skip(i + 1), (i + 1) as nat) {
                    Ok(r) => {
                        assert(acc + (seq![entry] + r) =~= acc.push(entry) + r);
                    },
                    Err(_) => {},
                }
                acc = acc.push(entry);
            }
            i = i + 1;
        }
        proof {
            assert(all.skip(all.len() as int) =~= Seq::<usize>::empty());
            assert(acc + Seq::<GroupLinks>::empty() =~= acc);
        }
        Ok(grouped)
    }
}

impl Default for GroupedItemsSelector<'_> {
    fn default() -> (r: Self)
        ensures
            r.source() == Seq::<char>::empty(),
            r.group_dom@ == Seq::<char>::empty(),
            r.inside_group_name_dom@ == Seq::<char>::empty(),
            r.outside_group_name_dom@ == Seq::<char>::empty(),
            r.items_dom@ == Seq::<char>::empty(),
            r.items_title_attr@ == Seq::<char>::empty(),
            r.items_title_dom@ == Seq::<char>::empty(),
            r.items_title_dom_attr@ == Seq::<char>::empty(),
            r.items_url_attr@ == "href"@,
            r.items_url_prefix@ == Seq::<char>::empty(),
    {
        proof {
            reveal_strlit("");
        }
        Self {
            document: Rc::new(parse_document("")),
            group_dom: "",
            inside_group_name_dom: "",
            outside_group_name_dom: "",
            items_dom: "",
            items_title_attr: "",
            items_title_dom: "",
            items_title_dom_attr: "",
            items_url_attr: "href",
            items_url_prefix: "",
        }
    }
}

} // verus!
