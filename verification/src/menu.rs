//! A command's visible subcommands, partitioned by the category each is filed under.

use vstd::prelude::*;
use crate::category::{
    distinct_categories, first_entry_for, lemma_distinct_covers_labels, lemma_distinct_labels,
    lemma_first_entry_extends, Category, CommandCategoryMap, CommandName,
};
use crate::text::str_eq;

verus! {

/// One subcommand of the command whose help is rendered.
pub struct Subcommand {
    /// The name the user types.
    pub name: String,
    /// The one-line description shown beside the name, if any.
    pub about: Option<String>,
    /// Hidden subcommands are never listed.
    pub hidden: bool,
}

/// The label of the category `name` is filed under, if any.
pub open spec fn label_of(map: Seq<(CommandName, Category)>, name: Seq<char>) -> Option<Seq<char>> {
    match first_entry_for(map, name) {
        Some(i) => Some(map[i].1.label@),
        None => None,
    }
}

/// The section key of a category: its label, or `None` for the uncategorized rows.
pub open spec fn key_of(category: Option<Category>) -> Option<Seq<char>> {
    match category {
        Some(c) => Some(c.label@),
        None => None,
    }
}

/// The category a borrowed one refers to.
pub open spec fn owned_category(category: Option<&Category>) -> Option<Category> {
    match category {
        Some(c) => Some(*c),
        None => None,
    }
}

/// The section key of a borrowed category.
pub open spec fn key_of_ref(category: Option<&Category>) -> Option<Seq<char>> {
    match category {
        Some(c) => Some(c.label@),
        None => None,
    }
}

/// Whether `sub` is listed in the section with key `key`.
pub open spec fn filed_under(map: Seq<(CommandName, Category)>, sub: Subcommand, key: Option<Seq<char>>) -> bool {
    !sub.hidden && label_of(map, sub.name@) == key
}

/// The subcommands that are not hidden, in declared order.
pub open spec fn visible(subs: Seq<Subcommand>) -> Seq<Subcommand>
    decreases subs.len(),
{
    if subs.len() == 0 {
        Seq::empty()
    } else if subs.last().hidden {
        visible(subs.drop_last())
    } else {
        visible(subs.drop_last()).push(subs.last())
    }
}

/// The subcommands listed in the section with key `key`, in declared order.
pub open spec fn members(subs: Seq<Subcommand>, map: Seq<(CommandName, Category)>, key: Option<Seq<char>>) -> Seq<Subcommand>
    decreases subs.len(),
{
    if subs.len() == 0 {
        Seq::empty()
    } else if filed_under(map, subs.last(), key) {
        members(subs.drop_last(), map, key).push(subs.last())
    } else {
        members(subs.drop_last(), map, key)
    }
}

/// The categories of `cats` that have at least one listed member.
pub open spec fn occupied(cats: Seq<Category>, subs: Seq<Subcommand>, map: Seq<(CommandName, Category)>) -> Seq<Category>
    decreases cats.len(),
{
    if cats.len() == 0 {
        Seq::empty()
    } else if members(subs, map, Some(cats.last().label@)).len() > 0 {
        occupied(cats.drop_last(), subs, map).push(cats.last())
    } else {
        occupied(cats.drop_last(), subs, map)
    }
}

/// The categories that head a section: the distinct ones with a listed member, in
/// first-appearance order.
pub open spec fn menu_categories(subs: Seq<Subcommand>, map: Seq<(CommandName, Category)>) -> Seq<Category> {
    occupied(distinct_categories(map), subs, map)
}

/// A command's subcommands seen through a category map.
pub struct Menu<'a> {
    pub category_map: CommandCategoryMap,
    pub subcommands: &'a Vec<Subcommand>,
}

impl<'a> Menu<'a> {
    /// The subcommands, minus the hidden ones.
    pub fn subcommands(&self) -> (out: Vec<&'a Subcommand>)
        ensures
            out@.len() == visible(self.subcommands@).len(),
            forall|k: int| 0 <= k < out@.len() ==> *#[trigger] out@[k] == visible(self.subcommands@)[k],
    {
        let subs = self.subcommands;
        let mut out: Vec<&'a Subcommand> = Vec::new();
        let mut i: usize = 0;
        while i < subs.len()
            invariant
                i <= subs@.len(),
                subs@ == self.subcommands@,
                out@.len() == visible(subs@.subrange(0, i as int)).len(),
                forall|k: int| 0 <= k < out@.len() ==> *#[trigger] out@[k] == visible(subs@.subrange(0, i as int))[k],
            decreases subs@.len() - i,
        {
            assert(subs@.subrange(0, i + 1).drop_last() =~= subs@.subrange(0, i as int));
            if !subs[i].hidden {
                out.push(&subs[i]);
            }
            i = i + 1;
        }
        assert(subs@.subrange(0, i as int) =~= subs@);
        out
    }

    /// Whether `sub` is filed under the section with the label `label` (`None` for the
    /// uncategorized one).
    fn files_under(&self, sub: &Subcommand, label: Option<&str>) -> (r: bool)
        ensures
            r == filed_under(self.category_map@, *sub, match label { Some(l) => Some(l@), None => None }),
    {
        if sub.hidden {
            return false;
        }
        let found = self.category_map.find(sub.name.as_str());
        match (found, label) {
            (Some(c), Some(l)) => str_eq(c.label, l),
            (None, None) => true,
            _ => false,
        }
    }

    /// The visible subcommands filed under `category` (`None` for the uncategorized ones).
    pub fn members(&self, category: Option<&Category>) -> (out: Vec<&'a Subcommand>)
        ensures
            out@.len() == members(self.subcommands@, self.category_map@, key_of_ref(category)).len(),
            forall|k: int| 0 <= k < out@.len() ==>
                *#[trigger] out@[k] == members(self.subcommands@, self.category_map@, key_of_ref(category))[k],
    {
        let label: Option<&str> = match category {
            Some(c) => Some(c.label),
            None => None,
        };
        let ghost key = key_of_ref(category);
        let subs = self.subcommands;
        let mut out: Vec<&'a Subcommand> = Vec::new();
        let mut i: usize = 0;
        while i < subs.len()
            invariant
                i <= subs@.len(),
                subs@ == self.subcommands@,
                key == match label { Some(l) => Some(l@), None => None::<Seq<char>> },
                out@.len() == members(subs@.subrange(0, i as int), self.category_map@, key).len(),
                forall|k: int| 0 <= k < out@.len() ==>
                    *#[trigger] out@[k] == members(subs@.subrange(0, i as int), self.category_map@, key)[k],
            decreases subs@.len() - i,
        {
            assert(subs@.subrange(0, i + 1).drop_last() =~= subs@.subrange(0, i as int));
            if self.files_under(&subs[i], label) {
                out.push(&subs[i]);
            }
            i = i + 1;
        }
        assert(subs@.subrange(0, i as int) =~= subs@);
        out
    }

    /// Whether some visible subcommand is filed under no category.
    pub fn has_uncategorized(&self) -> (r: bool)
        ensures
            r == (members(self.subcommands@, self.category_map@, None).len() > 0),
    {
        self.members(None).len() > 0
    }

    /// The distinct categories with at least one visible member, in first-appearance order.
    pub fn categories(&self) -> (out: Vec<&'static Category>)
        ensures
            out@.len() == menu_categories(self.subcommands@, self.category_map@).len(),
            forall|k: int| 0 <= k < out@.len() ==>
                *#[trigger] out@[k] == menu_categories(self.subcommands@, self.category_map@)[k],
    {
        let cats = self.category_map.distinct();
        let ghost all = distinct_categories(self.category_map@);
        let mut out: Vec<&'static Category> = Vec::new();
        let mut i: usize = 0;
        while i < cats.len()
            invariant
                i <= cats@.len(),
                cats@.len() == all.len(),
                all == distinct_categories(self.category_map@),
                forall|k: int| 0 <= k < cats@.len() ==> *#[trigger] cats@[k] == all[k],
                out@.len() == occupied(all.subrange(0, i as int), self.subcommands@, self.category_map@).len(),
                forall|k: int| 0 <= k < out@.len() ==>
                    *#[trigger] out@[k] == occupied(all.subrange(0, i as int), self.subcommands@, self.category_map@)[k],
            decreases cats@.len() - i,
        {
            assert(all.subrange(0, i + 1).drop_last() =~= all.subrange(0, i as int));
            let cat = cats[i];
            assert(*cat == all[i as int]);
            let found = self.members(Some(cat));
            if found.len() > 0 {
                out.push(cat);
            }
            i = i + 1;
        }
        assert(all.subrange(0, i as int) =~= all);
        out
    }
}

} // verus!

verus! {

/// A section lists exactly the subcommands filed under its key.
pub proof fn lemma_members_contains(
    subs: Seq<Subcommand>,
    map: Seq<(CommandName, Category)>,
    key: Option<Seq<char>>,
    s: Subcommand,
)
    ensures
        members(subs, map, key).contains(s) <==> (subs.contains(s) && filed_under(map, s, key)),
    decreases subs.len(),
{
    if subs.len() > 0 {
        let prefix = subs.drop_last();
        lemma_members_contains(prefix, map, key, s);
        let m = members(subs, map, key);
        let pm = members(prefix, map, key);
        if pm.contains(s) {
            let k = choose|k: int| 0 <= k < pm.len() && pm[k] == s;
            assert(m[k] == s);
        }
        if m.contains(s) {
            let k = choose|k: int| 0 <= k < m.len() && m[k] == s;
            if k < pm.len() {
                assert(pm[k] == s);
            }
        }
        if prefix.contains(s) {
            let k = choose|k: int| 0 <= k < prefix.len() && prefix[k] == s;
            assert(subs[k] == s);
        }
        if subs.contains(s) && filed_under(map, s, key) {
            let k = choose|k: int| 0 <= k < subs.len() && subs[k] == s;
            if k < prefix.len() {
                assert(prefix[k] == s);
            } else {
                assert(m[m.len() - 1] == s);
            }
        }
    }
}

/// The occupied categories are a subsequence of the candidates, keeping each candidate that has
/// a listed member.
pub proof fn lemma_occupied_contains(
    cats: Seq<Category>,
    subs: Seq<Subcommand>,
    map: Seq<(CommandName, Category)>,
    c: Category,
)
    ensures
        occupied(cats, subs, map).contains(c) <==> (cats.contains(c) && members(subs, map, Some(c.label@)).len() > 0),
    decreases cats.len(),
{
    if cats.len() > 0 {
        let prefix = cats.drop_last();
        lemma_occupied_contains(prefix, subs, map, c);
        let o = occupied(cats, subs, map);
        let po = occupied(prefix, subs, map);
        if po.contains(c) {
            let k = choose|k: int| 0 <= k < po.len() && po[k] == c;
            assert(o[k] == c);
        }
        if o.contains(c) {
            let k = choose|k: int| 0 <= k < o.len() && o[k] == c;
            if k < po.len() {
                assert(po[k] == c);
            }
        }
        if prefix.contains(c) {
            let k = choose|k: int| 0 <= k < prefix.len() && prefix[k] == c;
            assert(cats[k] == c);
        }
        if cats.contains(c) && members(subs, map, Some(c.label@)).len() > 0 {
            let k = choose|k: int| 0 <= k < cats.len() && cats[k] == c;
            if k < prefix.len() {
                assert(prefix[k] == c);
            } else {
                assert(o[o.len() - 1] == c);
            }
        }
    }
}

/// Occupied categories keep the candidates' distinct labels.
proof fn lemma_occupied_distinct(cats: Seq<Category>, subs: Seq<Subcommand>, map: Seq<(CommandName, Category)>)
    requires
        forall|a: int, b: int| 0 <= a < b < cats.len() ==> cats[a].label@ != cats[b].label@,
    ensures
        forall|a: int, b: int| 0 <= a < b < occupied(cats, subs, map).len() ==>
            occupied(cats, subs, map)[a].label@ != occupied(cats, subs, map)[b].label@,
    decreases cats.len(),
{
    if cats.len() > 0 {
        let prefix = cats.drop_last();
        assert forall|a: int, b: int| 0 <= a < b < prefix.len() implies prefix[a].label@ != prefix[b].label@ by {
            assert(prefix[a] == cats[a] && prefix[b] == cats[b]);
        }
        lemma_occupied_distinct(prefix, subs, map);
        let po = occupied(prefix, subs, map);
        assert forall|a: int| 0 <= a < po.len() implies po[a].label@ != cats.last().label@ by {
            assert(po.contains(po[a]));
            lemma_occupied_contains(prefix, subs, map, po[a]);
            let k = choose|k: int| 0 <= k < prefix.len() && prefix[k] == po[a];
            assert(cats[k] == po[a]);
        }
    }
}

/// The subcommands a menu lists are exactly those not hidden, in declared order: none of them is
/// hidden, each is one of the command's subcommands, and every subcommand that is not hidden is
/// among them.
pub proof fn law_visible_is_the_unhidden(subs: Seq<Subcommand>)
    ensures
        forall|k: int| 0 <= k < visible(subs).len() ==> !(#[trigger] visible(subs)[k]).hidden,
        forall|k: int| 0 <= k < visible(subs).len() ==> subs.contains(#[trigger] visible(subs)[k]),
        forall|i: int| 0 <= i < subs.len() && !(#[trigger] subs[i]).hidden ==> visible(subs).contains(subs[i]),
        visible(subs).len() <= subs.len(),
    decreases subs.len(),
{
    if subs.len() > 0 {
        let p = subs.drop_last();
        law_visible_is_the_unhidden(p);
        let v = visible(subs);
        let pv = visible(p);
        assert forall|k: int| 0 <= k < v.len() implies subs.contains(#[trigger] v[k]) by {
            if k < pv.len() {
                assert(v[k] == pv[k]);
                let i = choose|i: int| 0 <= i < p.len() && p[i] == pv[k];
                assert(subs[i] == p[i]);
            } else {
                assert(v[k] == subs[subs.len() - 1]);
            }
        }
        assert forall|k: int| 0 <= k < v.len() implies !(#[trigger] v[k]).hidden by {
            if k < pv.len() {
                assert(v[k] == pv[k]);
            }
        }
        assert forall|i: int| 0 <= i < subs.len() && !(#[trigger] subs[i]).hidden implies v.contains(subs[i]) by {
            if i < p.len() {
                assert(p[i] == subs[i]);
                assert(pv.contains(p[i]));
                let k = choose|k: int| 0 <= k < pv.len() && pv[k] == p[i];
                assert(v[k] == pv[k]);
            } else {
                assert(v[v.len() - 1] == subs[i]);
            }
        }
    }
}

/// The menu's section headings are pairwise distinct categories, each with at least one listed
/// subcommand.
pub proof fn law_sections_distinct_and_occupied(subs: Seq<Subcommand>, map: Seq<(CommandName, Category)>)
    ensures
        forall|a: int, b: int| 0 <= a < b < menu_categories(subs, map).len() ==>
            menu_categories(subs, map)[a].label@ != menu_categories(subs, map)[b].label@,
        forall|a: int| 0 <= a < menu_categories(subs, map).len() ==>
            members(subs, map, Some(#[trigger] menu_categories(subs, map)[a].label@)).len() > 0,
{
    lemma_distinct_labels(map);
    lemma_occupied_distinct(distinct_categories(map), subs, map);
    let mc = menu_categories(subs, map);
    assert forall|a: int| 0 <= a < mc.len() implies members(subs, map, Some(#[trigger] mc[a].label@)).len() > 0 by {
        assert(mc.contains(mc[a]));
        lemma_occupied_contains(distinct_categories(map), subs, map, mc[a]);
    }
}

/// Every subcommand that is not hidden is listed in exactly one section: the uncategorized one
/// when the map files its name under nothing, otherwise the section of its category, which the
/// menu then shows. A hidden subcommand is listed in no section.
pub proof fn law_each_visible_command_listed_once(subs: Seq<Subcommand>, map: Seq<(CommandName, Category)>, i: int)
    requires
        0 <= i < subs.len(),
    ensures
        subs[i].hidden ==> forall|key: Option<Seq<char>>| !(#[trigger] members(subs, map, key)).contains(subs[i]),
        !subs[i].hidden ==> members(subs, map, label_of(map, subs[i].name@)).contains(subs[i]),
        !subs[i].hidden ==> forall|key: Option<Seq<char>>|
            key != label_of(map, subs[i].name@) ==> !(#[trigger] members(subs, map, key)).contains(subs[i]),
        !subs[i].hidden && label_of(map, subs[i].name@) is None ==> members(subs, map, None).len() > 0,
        !subs[i].hidden && label_of(map, subs[i].name@) is Some ==> exists|k: int|
            0 <= k < menu_categories(subs, map).len()
                && Some(#[trigger] menu_categories(subs, map)[k].label@) == label_of(map, subs[i].name@),
{
    let s = subs[i];
    assert(subs.contains(s));
    assert forall|key: Option<Seq<char>>| #[trigger] members(subs, map, key).contains(s) <==> filed_under(map, s, key) by {
        lemma_members_contains(subs, map, key, s);
    }
    if !s.hidden {
        let key = label_of(map, s.name@);
        assert(members(subs, map, key).contains(s));
        if let Some(l) = key {
            lemma_first_entry_extends(map, 0, s.name@);
            let j = first_entry_for(map, s.name@)->0;
            lemma_distinct_covers_labels(map, j);
            let d = distinct_categories(map);
            let k = choose|k: int| 0 <= k < d.len() && #[trigger] d[k].label@ == map[j].1.label@;
            assert(d.contains(d[k]));
            lemma_occupied_contains(d, subs, map, d[k]);
            let mc = menu_categories(subs, map);
            assert(mc.contains(d[k]));
            let m = choose|m: int| 0 <= m < mc.len() && mc[m] == d[k];
            assert(Some(mc[m].label@) == key);
        }
    }
}

} // verus!
