//! Commands, the categories they are filed under, and the static map between them.

use vstd::prelude::*;
use crate::text::str_eq;

verus! {

/// A clap subcommand name, eg. `foo` in `app foo`.
#[derive(Clone, Copy)]
pub struct CommandName(pub &'static str);

impl View for CommandName {
    type V = Seq<char>;

    open spec fn view(&self) -> Seq<char> {
        self.0@
    }
}

impl CommandName {
    /// The underlying subcommand name.
    pub fn as_str(&self) -> (name: &'static str)
        ensures
            name@ == self@,
    {
        self.0
    }

    /// Wrap a static subcommand name.
    pub fn new(name: &'static str) -> (cmd: Self)
        ensures
            cmd@ == name@,
    {
        CommandName(name)
    }
}

/// Defines a category of similar commands.
#[derive(Clone, Copy)]
pub struct Category {
    /// Text printed beside the heading, if any.
    pub description: Option<&'static str>,
    /// Key that `#[category("...")]` refers to.
    pub label: &'static str,
    /// Heading shown to the user; falls back to the label.
    pub title: Option<&'static str>,
}

impl Category {
    /// The user-facing heading: the title, falling back to the label.
    pub open spec fn spec_heading(&self) -> Seq<char> {
        match self.title {
            Some(title) => title@,
            None => self.label@,
        }
    }

    /// The user-facing heading: the title, falling back to the label.
    pub fn heading(&self) -> (heading: &'static str)
        ensures
            heading@ == self.spec_heading(),
    {
        match self.title {
            Some(title) => title,
            None => self.label,
        }
    }
}

/// A static map from subcommand name to the category it belongs to.
#[derive(Clone, Copy)]
pub struct CommandCategoryMap(pub &'static [(CommandName, Category)]);

impl View for CommandCategoryMap {
    type V = Seq<(CommandName, Category)>;

    open spec fn view(&self) -> Seq<(CommandName, Category)> {
        self.0@
    }
}

/// Index of the first entry of `entries` filed for the command `name`, if any.
pub open spec fn first_entry_for(entries: Seq<(CommandName, Category)>, name: Seq<char>) -> Option<int>
    decreases entries.len(),
{
    if entries.len() == 0 {
        None
    } else {
        match first_entry_for(entries.drop_last(), name) {
            Some(i) => Some(i),
            None => if entries.last().0@ == name {
                Some(entries.len() - 1)
            } else {
                None
            },
        }
    }
}

/// The first entry for a name stays the first one when entries are appended.
pub proof fn lemma_first_entry_extends(entries: Seq<(CommandName, Category)>, k: int, name: Seq<char>)
    requires
        0 <= k <= entries.len(),
    ensures
        first_entry_for(entries.subrange(0, k), name) matches Some(i) ==> first_entry_for(entries, name) == Some(i),
        first_entry_for(entries, name) matches Some(i) ==> 0 <= i < entries.len() && entries[i].0@ == name,
        first_entry_for(entries, name) is None ==> forall|j: int| 0 <= j < entries.len() ==> #[trigger] entries[j].0@ != name,
    decreases entries.len(),
{
    if entries.len() > 0 {
        let prefix = entries.drop_last();
        if k == entries.len() {
            assert(entries.subrange(0, k) =~= entries);
        } else {
            assert(entries.subrange(0, k) =~= prefix.subrange(0, k));
        }
        lemma_first_entry_extends(prefix, if k == entries.len() { k - 1 } else { k }, name);
        assert forall|j: int| 0 <= j < prefix.len() implies prefix[j] == entries[j] by {}
    }
}

/// Whether some entry before index `i` carries the label `label`.
pub open spec fn label_seen_before(entries: Seq<(CommandName, Category)>, i: int, label: Seq<char>) -> bool {
    exists|j: int| 0 <= j < i && #[trigger] entries[j].1.label@ == label
}

/// The distinct categories of `entries`, each at its first appearance.
pub open spec fn distinct_categories(entries: Seq<(CommandName, Category)>) -> Seq<Category>
    decreases entries.len(),
{
    if entries.len() == 0 {
        Seq::empty()
    } else {
        let prefix = entries.drop_last();
        let last = entries.last().1;
        if label_seen_before(entries, entries.len() - 1, last.label@) {
            distinct_categories(prefix)
        } else {
            distinct_categories(prefix).push(last)
        }
    }
}

impl CommandCategoryMap {
    /// A map with no entries.
    pub fn empty() -> (map: Self)
        ensures
            map@ == Seq::<(CommandName, Category)>::empty(),
    {
        CommandCategoryMap(&[])
    }

    /// Wrap a static slice of `(command, category)` pairs.
    pub fn new(entries: &'static [(CommandName, Category)]) -> (map: Self)
        ensures
            map@ == entries@,
    {
        CommandCategoryMap(entries)
    }

    /// The category assigned to `name`, if any: that of the first entry for `name`.
    pub fn find(&self, name: &str) -> (found: Option<&'static Category>)
        ensures
            match first_entry_for(self@, name@) {
                Some(i) => 0 <= i < self@.len() && found == Some(&self@[i].1),
                None => found.is_none(),
            },
    {
        let entries = self.0;
        let mut i: usize = 0;
        while i < entries.len()
            invariant
                i <= entries@.len(),
                entries@ == self@,
                first_entry_for(self@.subrange(0, i as int), name@).is_none(),
            decreases entries@.len() - i,
        {
            assert(self@.subrange(0, i + 1).drop_last() =~= self@.subrange(0, i as int));
            if str_eq(entries[i].0.0, name) {
                proof {
                    lemma_first_entry_extends(self@, i + 1, name@);
                }
                return Some(&entries[i].1);
            }
            i = i + 1;
        }
        assert(self@.subrange(0, i as int) =~= self@);
        None
    }

    /// The distinct categories, in first-appearance order.
    pub fn distinct(&self) -> (cats: Vec<&'static Category>)
        ensures
            cats@.len() == distinct_categories(self@).len(),
            forall|k: int| 0 <= k < cats@.len() ==> *#[trigger] cats@[k] == distinct_categories(self@)[k],
    {
        let entries = self.0;
        let mut out: Vec<&'static Category> = Vec::new();
        let mut i: usize = 0;
        while i < entries.len()
            invariant
                i <= entries@.len(),
                entries@ == self@,
                out@.len() == distinct_categories(self@.subrange(0, i as int)).len(),
                forall|k: int| 0 <= k < out@.len() ==> *#[trigger] out@[k] == distinct_categories(self@.subrange(0, i as int))[k],
            decreases entries@.len() - i,
        {
            let ghost prefix = self@.subrange(0, i + 1);
            assert(prefix.drop_last() =~= self@.subrange(0, i as int));
            let mut seen = false;
            let mut j: usize = 0;
            while j < i
                invariant
                    j <= i < entries@.len(),
                    entries@ == self@,
                    prefix == self@.subrange(0, i + 1),
                    seen == label_seen_before(prefix, j as int, entries@[i as int].1.label@),
                decreases i - j,
            {
                if str_eq(entries[j].1.label, entries[i].1.label) {
                    seen = true;
                }
                proof {
                    if seen {
                        assert(prefix[j as int].1.label@ == entries@[i as int].1.label@ ==> label_seen_before(prefix, j + 1, entries@[i as int].1.label@));
                    }
                }
                j = j + 1;
            }
            if !seen {
                out.push(&entries[i].1);
            }
            i = i + 1;
        }
        assert(self@.subrange(0, i as int) =~= self@);
        out
    }

    /// The `(command, category)` pairs in declared order.
    pub fn iter(&self) -> (it: core::slice::Iter<'static, (CommandName, Category)>)
        ensures
            it == vstd::std_specs::slice::spec_slice_iter(self.0),
    {
        self.0.iter()
    }
}

impl<'map> IntoIterator for &'map CommandCategoryMap {
    type IntoIter = core::slice::Iter<'map, (CommandName, Category)>;
    type Item = &'map (CommandName, Category);

    /// The `(command, category)` pairs in declared order.
    fn into_iter(self) -> (it: core::slice::Iter<'map, (CommandName, Category)>)
        ensures
            it == vstd::std_specs::slice::spec_slice_iter(self.0),
    {
        self.0.iter()
    }
}

} // verus!

verus! {

/// Every category `distinct_categories` keeps comes from an entry.
pub proof fn lemma_distinct_from_entries(entries: Seq<(CommandName, Category)>, c: Category)
    ensures
        distinct_categories(entries).contains(c) ==> exists|j: int| 0 <= j < entries.len() && #[trigger] entries[j].1 == c,
    decreases entries.len(),
{
    if entries.len() > 0 {
        let prefix = entries.drop_last();
        lemma_distinct_from_entries(prefix, c);
        if distinct_categories(prefix).contains(c) {
            let j = choose|j: int| 0 <= j < prefix.len() && #[trigger] prefix[j].1 == c;
            assert(entries[j].1 == c);
        }
    }
}

/// The categories `distinct_categories` keeps carry pairwise distinct labels.
pub proof fn lemma_distinct_labels(entries: Seq<(CommandName, Category)>)
    ensures
        forall|a: int, b: int| 0 <= a < b < distinct_categories(entries).len() ==>
            distinct_categories(entries)[a].label@ != distinct_categories(entries)[b].label@,
    decreases entries.len(),
{
    if entries.len() > 0 {
        let prefix = entries.drop_last();
        let last = entries.last().1;
        lemma_distinct_labels(prefix);
        if !label_seen_before(entries, entries.len() - 1, last.label@) {
            let d = distinct_categories(prefix);
            assert forall|a: int| 0 <= a < d.len() implies d[a].label@ != last.label@ by {
                assert(d.contains(d[a]));
                lemma_distinct_from_entries(prefix, d[a]);
                let j = choose|j: int| 0 <= j < prefix.len() && #[trigger] prefix[j].1 == d[a];
                assert(entries[j].1.label@ == d[a].label@);
            }
        }
    }
}

/// Every label of the map heads one of the distinct categories.
pub proof fn lemma_distinct_covers_labels(entries: Seq<(CommandName, Category)>, j: int)
    requires
        0 <= j < entries.len(),
    ensures
        exists|k: int| 0 <= k < distinct_categories(entries).len()
            && #[trigger] distinct_categories(entries)[k].label@ == entries[j].1.label@,
    decreases entries.len(),
{
    let prefix = entries.drop_last();
    let last = entries.last().1;
    let d = distinct_categories(entries);
    if j < entries.len() - 1 {
        lemma_distinct_covers_labels(prefix, j);
        let k = choose|k: int| 0 <= k < distinct_categories(prefix).len()
            && #[trigger] distinct_categories(prefix)[k].label@ == prefix[j].1.label@;
        assert(d[k] == distinct_categories(prefix)[k]);
    } else if label_seen_before(entries, entries.len() - 1, last.label@) {
        let i = choose|i: int| 0 <= i < entries.len() - 1 && #[trigger] entries[i].1.label@ == last.label@;
        lemma_distinct_covers_labels(prefix, i);
        let k = choose|k: int| 0 <= k < distinct_categories(prefix).len()
            && #[trigger] distinct_categories(prefix)[k].label@ == prefix[i].1.label@;
        assert(d[k] == distinct_categories(prefix)[k]);
    } else {
        assert(d[d.len() - 1] == last);
    }
}

} // verus!
