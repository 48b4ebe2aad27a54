//! What `#[derive(Couture)]` emits for a subcommand enum: which categories a variant may name,
//! and the `(command, category)` entries of the map, in heading order.

use vstd::prelude::*;
use crate::text::str_eq;

verus! {

/// The characters of an optional string.
pub open spec fn opt_view(s: Option<String>) -> Option<Seq<char>> {
    match s {
        Some(s) => Some(s@),
        None => None,
    }
}

/// A copy of an optional string.
pub fn clone_opt(s: &Option<String>) -> (r: Option<String>)
    ensures
        opt_view(r) == opt_view(*s),
{
    match s {
        Some(s) => Some(s.clone()),
        None => None,
    }
}

/// One `"key" = { title = "...", description = "..." }` of `#[couture(categories = {...})]`.
pub struct CategoryAttr {
    pub description: Option<String>,
    pub title: Option<String>,
}

/// The `inherit = ...` of `#[couture(...)]`.
pub enum Inherit {
    /// `inherit = true` or `inherit = false`.
    All(bool),
    /// `inherit = ["a", ...]`.
    List(Vec<String>),
}

/// One `#[couture(...)]` attribute on a subcommand enum.
pub struct CategoriesSpec {
    /// The declared categories, in order.
    pub categories: Vec<(String, CategoryAttr)>,
    pub inherit: Option<Inherit>,
}

/// A declared category.
pub struct CategoryDef {
    pub description: Option<String>,
    pub label: String,
    pub title: Option<String>,
}

/// Which undeclared categories `#[category("...")]` may name.
pub enum InheritSpec {
    /// `inherit = true`: any category (no compile-time check).
    All,
    /// `inherit = ["a", ...]`: also these parent categories.
    List(Vec<String>),
    /// No `inherit` clause, or `inherit = false`.
    NoInherit,
}

/// A declared category as plain values: label, description, title.
pub open spec fn def_view(d: CategoryDef) -> (Seq<char>, Option<Seq<char>>, Option<Seq<char>>) {
    (d.label@, opt_view(d.description), opt_view(d.title))
}

/// The categories the attributes declare, in order, across every `#[couture(...)]`.
pub open spec fn declared_of(specs: Seq<CategoriesSpec>) -> Seq<(Seq<char>, Option<Seq<char>>, Option<Seq<char>>)>
    decreases specs.len(),
{
    if specs.len() == 0 {
        Seq::empty()
    } else {
        declared_of(specs.drop_last()) + specs.last().categories@.map_values(
            |c: (String, CategoryAttr)| (c.0@, opt_view(c.1.description), opt_view(c.1.title)),
        )
    }
}

/// The inherit rule of one attribute: a missing clause or `false` inherits nothing.
pub open spec fn inherit_of(inherit: Option<Inherit>) -> Option<Option<Seq<Seq<char>>>> {
    match inherit {
        Some(Inherit::All(true)) => Some(None),
        Some(Inherit::List(list)) => Some(Some(list@.map_values(|s: String| s@))),
        _ => None,
    }
}

/// The inherit rule as plain values: `Some(None)` accepts any category, `Some(Some(l))` also
/// the labels `l`, `None` nothing more.
pub open spec fn inherit_view(i: InheritSpec) -> Option<Option<Seq<Seq<char>>>> {
    match i {
        InheritSpec::All => Some(None),
        InheritSpec::List(list) => Some(Some(list@.map_values(|s: String| s@))),
        InheritSpec::NoInherit => None,
    }
}

fn clone_strings(list: &Vec<String>) -> (r: Vec<String>)
    ensures
        r@.map_values(|s: String| s@) == list@.map_values(|s: String| s@),
{
    let mut r: Vec<String> = Vec::new();
    let mut i: usize = 0;
    while i < list.len()
        invariant
            i <= list@.len(),
            r@.len() == i,
            forall|k: int| 0 <= k < i ==> (#[trigger] r@[k])@ == list@[k]@,
        decreases list@.len() - i,
    {
        r.push(list[i].clone());
        i = i + 1;
    }
    assert(r@.map_values(|s: String| s@) =~= list@.map_values(|s: String| s@));
    r
}

/// Merge the `#[couture(...)]` attributes of an enum: their categories in order, and the
/// inherit rule of the last one (each attribute sets it, a missing clause to nothing).
pub fn merge_categories(specs: &Vec<CategoriesSpec>) -> (merged: (Vec<CategoryDef>, InheritSpec))
    ensures
        merged.0@.map_values(|d: CategoryDef| def_view(d)) == declared_of(specs@),
        inherit_view(merged.1) == if specs@.len() == 0 { None } else { inherit_of(specs@.last().inherit) },
{
    let mut out: Vec<CategoryDef> = Vec::new();
    let mut inherit = InheritSpec::NoInherit;
    let mut i: usize = 0;
    while i < specs.len()
        invariant
            i <= specs@.len(),
            out@.map_values(|d: CategoryDef| def_view(d)) == declared_of(specs@.subrange(0, i as int)),
            inherit_view(inherit) == if i == 0 { None } else { inherit_of(specs@[i - 1].inherit) },
        decreases specs@.len() - i,
    {
        assert(specs@.subrange(0, i + 1).drop_last() =~= specs@.subrange(0, i as int));
        let spec = &specs[i];
        let ghost before = out@;
        let mut j: usize = 0;
        while j < spec.categories.len()
            invariant
                j <= spec.categories@.len(),
                out@.len() == before.len() + j,
                forall|k: int| 0 <= k < before.len() ==> out@[k] == before[k],
                forall|k: int| 0 <= k < j ==> def_view(#[trigger] out@[before.len() + k]) == (
                    spec.categories@[k].0@,
                    opt_view(spec.categories@[k].1.description),
                    opt_view(spec.categories@[k].1.title),
                ),
            decreases spec.categories@.len() - j,
        {
            let (label, attr) = &spec.categories[j];
            out.push(CategoryDef {
                description: clone_opt(&attr.description),
                label: label.clone(),
                title: clone_opt(&attr.title),
            });
            j = j + 1;
        }
        proof {
            let prev = declared_of(specs@.subrange(0, i as int));
            assert(specs@.subrange(0, i + 1).last() == specs@[i as int]);
            assert forall|k: int| 0 <= k < before.len() implies def_view(#[trigger] out@[k]) == prev[k] by {
                assert(before.map_values(|d: CategoryDef| def_view(d))[k] == def_view(before[k]));
            }
            let want = declared_of(specs@.subrange(0, i + 1));
            let added = spec.categories@.map_values(
                |c: (String, CategoryAttr)| (c.0@, opt_view(c.1.description), opt_view(c.1.title)),
            );
            assert(want == prev + added);
            let got = out@.map_values(|d: CategoryDef| def_view(d));
            assert forall|k: int| 0 <= k < got.len() implies got[k] == want[k] by {
                if k >= before.len() {
                    let m = k - before.len();
                    assert(def_view(out@[before.len() + m]) == added[m]);
                }
            }
            assert(got =~= want);
        }
        inherit = match &spec.inherit {
            Some(Inherit::All(true)) => InheritSpec::All,
            Some(Inherit::List(list)) => InheritSpec::List(clone_strings(list)),
            _ => InheritSpec::NoInherit,
        };
        i = i + 1;
    }
    assert(specs@.subrange(0, i as int) =~= specs@);
    (out, inherit)
}

/// The labels of `categories`.
pub open spec fn labels_of(categories: Seq<CategoryDef>) -> Seq<Seq<char>> {
    categories.map_values(|c: CategoryDef| c.label@)
}

/// The categories `#[category("...")]` may name, or `None` to accept any: the declared ones,
/// plus the inherited ones; any when everything is inherited, or when nothing is declared or
/// inherited.
pub open spec fn allowed_labels(categories: Seq<CategoryDef>, inherit: Option<Option<Seq<Seq<char>>>>) -> Option<Seq<Seq<char>>> {
    match inherit {
        Some(None) => None,
        None => if categories.len() == 0 { None } else { Some(labels_of(categories)) },
        Some(Some(list)) => Some(labels_of(categories) + list),
    }
}

/// The categories `#[category("...")]` may name, or `None` to accept any.
pub fn allowed_categories(categories: &Vec<CategoryDef>, inherit: &InheritSpec) -> (allowed: Option<Vec<String>>)
    ensures
        match allowed_labels(categories@, inherit_view(*inherit)) {
            Some(labels) => allowed is Some && allowed->0@.map_values(|s: String| s@) == labels,
            None => allowed is None,
        },
{
    match inherit {
        InheritSpec::All => None,
        InheritSpec::NoInherit => {
            if categories.len() == 0 {
                None
            } else {
                Some(declared_labels(categories))
            }
        },
        InheritSpec::List(inherited) => {
            let mut labels = declared_labels(categories);
            let ghost declared = labels@;
            assert forall|k: int| 0 <= k < declared.len() implies (#[trigger] declared[k])@ == categories@[k].label@ by {
                assert(declared.map_values(|s: String| s@)[k] == declared[k]@);
            }
            let mut i: usize = 0;
            while i < inherited.len()
                invariant
                    i <= inherited@.len(),
                    labels@.len() == declared.len() + i,
                    forall|k: int| 0 <= k < declared.len() ==> labels@[k] == declared[k],
                    forall|k: int| 0 <= k < declared.len() ==> (#[trigger] declared[k])@ == categories@[k].label@,
                    declared.len() == categories@.len(),
                    forall|k: int| 0 <= k < i ==> (#[trigger] labels@[declared.len() + k])@ == inherited@[k]@,
                decreases inherited@.len() - i,
            {
                labels.push(inherited[i].clone());
                i = i + 1;
            }
            proof {
                let want = labels_of(categories@) + inherited@.map_values(|s: String| s@);
                let got = labels@.map_values(|s: String| s@);
                assert(got.len() == want.len());
                assert forall|k: int| 0 <= k < got.len() implies got[k] == want[k] by {
                    if k < declared.len() {
                        assert(labels@[k] == declared[k]);
                    } else {
                        let m = k - declared.len();
                        assert(labels@[declared.len() + m]@ == inherited@[m]@);
                    }
                }
                assert(got =~= want);
            }
            Some(labels)
        },
    }
}

fn declared_labels(categories: &Vec<CategoryDef>) -> (labels: Vec<String>)
    ensures
        labels@.map_values(|s: String| s@) == labels_of(categories@),
{
    let mut labels: Vec<String> = Vec::new();
    let mut i: usize = 0;
    while i < categories.len()
        invariant
            i <= categories@.len(),
            labels@.len() == i,
            forall|k: int| 0 <= k < i ==> (#[trigger] labels@[k])@ == categories@[k].label@,
        decreases categories@.len() - i,
    {
        labels.push(categories[i].label.clone());
        i = i + 1;
    }
    assert(labels@.map_values(|s: String| s@) =~= labels_of(categories@));
    labels
}

} // verus!

verus! {

/// A variant of the subcommand enum: the name clap gives it and its `#[category("...")]`.
pub struct VariantCategory {
    pub name: String,
    pub label: Option<String>,
}

/// One `(command, category)` entry the derive emits.
pub struct CategoryEntry {
    pub name: String,
    pub description: Option<String>,
    pub label: String,
    pub title: Option<String>,
}

/// An entry as plain values.
pub struct EntryView {
    pub name: Seq<char>,
    pub description: Option<Seq<char>>,
    pub label: Seq<char>,
    pub title: Option<Seq<char>>,
}

impl View for CategoryEntry {
    type V = EntryView;

    open spec fn view(&self) -> EntryView {
        EntryView {
            name: self.name@,
            description: opt_view(self.description),
            label: self.label@,
            title: opt_view(self.title),
        }
    }
}

/// A variant that names `label` but may not: the derive's compile error, at that variant's
/// `#[category("...")]`.
pub struct UndeclaredCategory {
    /// The index of the variant among the enum's variants.
    pub variant: usize,
    pub label: String,
}

impl UndeclaredCategory {
    /// The compile error's message.
    pub fn message(&self) -> (m: String)
        ensures
            m@ == "category `"@ + self.label@ + "` is not declared or inherited in this enum's `#[couture(...)]`"@,
    {
        let mut m = String::new();
        m.append("category `");
        m.append(self.label.as_str());
        m.append("` is not declared or inherited in this enum's `#[couture(...)]`");
        m
    }
}

/// The `(name, label)` of each variant filed under a category, in declared order.
pub open spec fn assignments(variants: Seq<VariantCategory>) -> Seq<(Seq<char>, Seq<char>)>
    decreases variants.len(),
{
    if variants.len() == 0 {
        Seq::empty()
    } else {
        let rest = assignments(variants.drop_last());
        match variants.last().label {
            Some(label) => rest.push((variants.last().name@, label@)),
            None => rest,
        }
    }
}

/// Index of the first assignment whose label `allowed` lacks, if any.
pub open spec fn first_disallowed(assigns: Seq<(Seq<char>, Seq<char>)>, allowed: Seq<Seq<char>>) -> Option<int>
    decreases assigns.len(),
{
    if assigns.len() == 0 {
        None
    } else {
        match first_disallowed(assigns.drop_last(), allowed) {
            Some(i) => Some(i),
            None => if allowed.contains(assigns.last().1) { None } else { Some(assigns.len() - 1) },
        }
    }
}

/// The entries of the assignments filed under the declared category `c`, in order, each with
/// `c`'s title and description.
pub open spec fn group(c: CategoryDef, assigns: Seq<(Seq<char>, Seq<char>)>) -> Seq<EntryView>
    decreases assigns.len(),
{
    if assigns.len() == 0 {
        Seq::empty()
    } else {
        let rest = group(c, assigns.drop_last());
        if assigns.last().1 == c.label@ {
            rest.push(EntryView {
                name: assigns.last().0,
                description: opt_view(c.description),
                label: c.label@,
                title: opt_view(c.title),
            })
        } else {
            rest
        }
    }
}

/// The entries for the declared categories: category by category, in declared order.
pub open spec fn declared_entries(cats: Seq<CategoryDef>, assigns: Seq<(Seq<char>, Seq<char>)>) -> Seq<EntryView>
    decreases cats.len(),
{
    if cats.len() == 0 {
        Seq::empty()
    } else {
        declared_entries(cats.drop_last(), assigns) + group(cats.last(), assigns)
    }
}

/// Whether some declared category has the label `label`.
pub open spec fn is_declared(cats: Seq<CategoryDef>, label: Seq<char>) -> bool {
    exists|i: int| 0 <= i < cats.len() && #[trigger] cats[i].label@ == label
}

/// The entries for categories not declared here: only the label, which becomes the heading.
pub open spec fn undeclared_entries(cats: Seq<CategoryDef>, assigns: Seq<(Seq<char>, Seq<char>)>) -> Seq<EntryView>
    decreases assigns.len(),
{
    if assigns.len() == 0 {
        Seq::empty()
    } else {
        let rest = undeclared_entries(cats, assigns.drop_last());
        if is_declared(cats, assigns.last().1) {
            rest
        } else {
            rest.push(EntryView { name: assigns.last().0, description: None, label: assigns.last().1, title: None })
        }
    }
}

/// The entries in heading order: the declared categories' in declared order, then the others'.
pub open spec fn category_entries(cats: Seq<CategoryDef>, assigns: Seq<(Seq<char>, Seq<char>)>) -> Seq<EntryView> {
    declared_entries(cats, assigns) + undeclared_entries(cats, assigns)
}

/// The first assignment naming a label that is not allowed, when the labels are checked at all.
pub open spec fn violation(cats: Seq<CategoryDef>, inherit: Option<Option<Seq<Seq<char>>>>, assigns: Seq<(Seq<char>, Seq<char>)>) -> Option<int> {
    match allowed_labels(cats, inherit) {
        Some(allowed) => first_disallowed(assigns, allowed),
        None => None,
    }
}

/// No assignment is disallowed exactly when `allowed` holds every assigned label.
proof fn lemma_first_disallowed_none(assigns: Seq<(Seq<char>, Seq<char>)>, allowed: Seq<Seq<char>>)
    ensures
        first_disallowed(assigns, allowed) is None <==> forall|k: int| 0 <= k < assigns.len() ==> allowed.contains(#[trigger] assigns[k].1),
    decreases assigns.len(),
{
    if assigns.len() > 0 {
        let p = assigns.drop_last();
        lemma_first_disallowed_none(p, allowed);
        assert forall|k: int| 0 <= k < p.len() implies #[trigger] p[k] == assigns[k] by {}
        if forall|k: int| 0 <= k < assigns.len() ==> allowed.contains(#[trigger] assigns[k].1) {
            assert forall|k: int| 0 <= k < p.len() implies allowed.contains(#[trigger] p[k].1) by {
                assert(p[k] == assigns[k]);
            }
            assert(allowed.contains(assigns[assigns.len() - 1].1));
        }
        if first_disallowed(assigns, allowed) is None {
            assert forall|k: int| 0 <= k < assigns.len() implies allowed.contains(#[trigger] assigns[k].1) by {
                if k < p.len() {
                    assert(allowed.contains(p[k].1));
                }
            }
        }
    }
}

/// The inherit rule of the last `#[couture(...)]` decides which labels a variant may name:
/// with `inherit = true` any label; with `inherit = [...]` exactly the declared labels and the
/// listed ones; otherwise exactly the declared labels, or any when none is declared.
pub proof fn law_inherit_decides_allowed(cats: Seq<CategoryDef>, specs: Seq<CategoriesSpec>, variants: Seq<VariantCategory>)
    requires
        specs.len() > 0,
    ensures
        ({
            let inherit = inherit_of(specs.last().inherit);
            let assigns = assignments(variants);
            &&& specs.last().inherit == Some(Inherit::All(true)) ==> violation(cats, inherit, assigns) is None
            &&& (specs.last().inherit matches Some(Inherit::List(list)) ==> (violation(cats, inherit, assigns) is None
                <==> forall|k: int| 0 <= k < assigns.len() ==> is_declared(cats, #[trigger] assigns[k].1)
                    || list@.map_values(|s: String| s@).contains(assigns[k].1)))
            &&& (specs.last().inherit is None || specs.last().inherit == Some(Inherit::All(false))) ==> {
                &&& cats.len() == 0 ==> violation(cats, inherit, assigns) is None
                &&& cats.len() > 0 ==> (violation(cats, inherit, assigns) is None
                    <==> forall|k: int| 0 <= k < assigns.len() ==> is_declared(cats, #[trigger] assigns[k].1))
            }
        }),
{
    let inherit = inherit_of(specs.last().inherit);
    let assigns = assignments(variants);
    let declared = labels_of(cats);
    assert forall|l: Seq<char>| declared.contains(l) <==> #[trigger] is_declared(cats, l) by {
        if declared.contains(l) {
            let i = choose|i: int| 0 <= i < declared.len() && declared[i] == l;
            assert(cats[i].label@ == l);
        }
        if is_declared(cats, l) {
            let i = choose|i: int| 0 <= i < cats.len() && #[trigger] cats[i].label@ == l;
            assert(declared[i] == l);
        }
    }
    match specs.last().inherit {
        Some(Inherit::List(list)) => {
            let extra = list@.map_values(|s: String| s@);
            let allowed = declared + extra;
            lemma_first_disallowed_none(assigns, allowed);
            assert forall|l: Seq<char>| allowed.contains(l) <==> declared.contains(l) || extra.contains(l) by {
                if allowed.contains(l) {
                    let i = choose|i: int| 0 <= i < allowed.len() && allowed[i] == l;
                    if i < declared.len() {
                        assert(declared[i] == l);
                    } else {
                        assert(extra[i - declared.len()] == l);
                    }
                }
                if declared.contains(l) {
                    let i = choose|i: int| 0 <= i < declared.len() && declared[i] == l;
                    assert(allowed[i] == l);
                }
                if extra.contains(l) {
                    let i = choose|i: int| 0 <= i < extra.len() && extra[i] == l;
                    assert(allowed[declared.len() + i] == l);
                }
            }
        },
        _ => {
            lemma_first_disallowed_none(assigns, declared);
        },
    }
}

/// A violation found in a prefix of the assignments is the first of the whole.
proof fn lemma_first_disallowed_prefix(s: Seq<(Seq<char>, Seq<char>)>, k: int, allowed: Seq<Seq<char>>)
    requires
        0 <= k <= s.len(),
    ensures
        first_disallowed(s.subrange(0, k), allowed) matches Some(i) ==> first_disallowed(s, allowed) == Some(i),
        first_disallowed(s, allowed) matches Some(i) ==> 0 <= i < s.len() && !allowed.contains(s[i].1),
    decreases s.len(),
{
    if s.len() > 0 {
        if k == s.len() {
            assert(s.subrange(0, k) =~= s);
            lemma_first_disallowed_prefix(s.drop_last(), k - 1, allowed);
        } else {
            assert(s.subrange(0, k) =~= s.drop_last().subrange(0, k));
            lemma_first_disallowed_prefix(s.drop_last(), k, allowed);
        }
        let p = s.drop_last();
        assert forall|j: int| 0 <= j < p.len() implies p[j] == s[j] by {}
    }
}

fn contains_str(list: &Vec<String>, s: &str) -> (found: bool)
    ensures
        found == list@.map_values(|x: String| x@).contains(s@),
{
    let ghost view = list@.map_values(|x: String| x@);
    let mut i: usize = 0;
    while i < list.len()
        invariant
            i <= list@.len(),
            view == list@.map_values(|x: String| x@),
            forall|k: int| 0 <= k < i ==> view[k] != s@,
        decreases list@.len() - i,
    {
        if str_eq(list[i].as_str(), s) {
            assert(view[i as int] == s@);
            return true;
        }
        i = i + 1;
    }
    false
}

/// Check each variant's category against the allowed ones and lay out the map's entries in
/// heading order: the declared categories' in declared order, then the undeclared ones with only
/// their label. Fails on the first variant naming a category it may not.
pub fn plan_entries(categories: &Vec<CategoryDef>, inherit: &InheritSpec, variants: &Vec<VariantCategory>)
    -> (planned: Result<Vec<CategoryEntry>, UndeclaredCategory>)
    ensures
        match violation(categories@, inherit_view(*inherit), assignments(variants@)) {
            Some(i) => planned is Err && planned->Err_0.label@ == assignments(variants@)[i].1
                && planned->Err_0.variant < variants@.len()
                && variants@[planned->Err_0.variant as int].label is Some
                && assignments(variants@.subrange(0, planned->Err_0.variant + 1)).len() == i + 1,
            None => planned is Ok && planned->Ok_0@.map_values(|e: CategoryEntry| e@)
                == category_entries(categories@, assignments(variants@)),
        },
{
    let allowed = allowed_categories(categories, inherit);
    let ghost allowed_spec = allowed_labels(categories@, inherit_view(*inherit));
    let mut assigns: Vec<(String, String)> = Vec::new();
    let mut i: usize = 0;
    while i < variants.len()
        invariant
            i <= variants@.len(),
            match allowed_spec {
                Some(labels) => allowed is Some && allowed->0@.map_values(|s: String| s@) == labels,
                None => allowed is None,
            },
            assigns@.map_values(|a: (String, String)| (a.0@, a.1@)) == assignments(variants@.subrange(0, i as int)),
            violation(categories@, inherit_view(*inherit), assignments(variants@.subrange(0, i as int))) is None,
            allowed_spec == allowed_labels(categories@, inherit_view(*inherit)),
        decreases variants@.len() - i,
    {
        let ghost prev = assignments(variants@.subrange(0, i as int));
        assert(variants@.subrange(0, i + 1).drop_last() =~= variants@.subrange(0, i as int));
        match &variants[i].label {
            Some(label) => {
                let ghost next = assignments(variants@.subrange(0, i + 1));
                assert(next == prev.push((variants@[i as int].name@, label@)));
                match &allowed {
                    Some(list) => {
                        if !contains_str(list, label.as_str()) {
                            proof {
                                assert(next.drop_last() =~= prev);
                                assert(first_disallowed(next, allowed_spec->0) == Some(prev.len() as int));
                                lemma_assignments_prefix(variants@, i + 1);
                                lemma_first_disallowed_prefix(assignments(variants@), next.len() as int, allowed_spec->0);
                            }
                            return Err(UndeclaredCategory { variant: i, label: label.clone() });
                        }
                        proof {
                            assert(next.drop_last() =~= prev);
                        }
                    },
                    None => {},
                }
                let ghost before = assigns@;
                assigns.push((variants[i].name.clone(), label.clone()));
                proof {
                    assert(assigns@.map_values(|a: (String, String)| (a.0@, a.1@)) =~= next) by {
                        assert(before.map_values(|a: (String, String)| (a.0@, a.1@)) == prev);
                        assert forall|k: int| 0 <= k < prev.len() implies
                            (assigns@[k].0@, assigns@[k].1@) == prev[k] by {
                            assert(assigns@[k] == before[k]);
                            assert(before.map_values(|a: (String, String)| (a.0@, a.1@))[k] == (before[k].0@, before[k].1@));
                        }
                    }
                }
            },
            None => {},
        }
        i = i + 1;
    }
    assert(variants@.subrange(0, i as int) =~= variants@);
    Ok(lay_out(categories, &assigns))
}

/// The assignments of a prefix of the variants are a prefix of the assignments.
proof fn lemma_assignments_prefix(variants: Seq<VariantCategory>, k: int)
    requires
        0 <= k <= variants.len(),
    ensures
        assignments(variants.subrange(0, k)).len() <= assignments(variants).len(),
        assignments(variants.subrange(0, k)) == assignments(variants).subrange(0, assignments(variants.subrange(0, k)).len() as int),
    decreases variants.len(),
{
    if k == variants.len() {
        assert(variants.subrange(0, k) =~= variants);
        assert(assignments(variants).subrange(0, assignments(variants).len() as int) =~= assignments(variants));
    } else {
        assert(variants.subrange(0, k) =~= variants.drop_last().subrange(0, k));
        lemma_assignments_prefix(variants.drop_last(), k);
        let p = assignments(variants.drop_last());
        let n = assignments(variants.subrange(0, k)).len() as int;
        assert(assignments(variants).subrange(0, n) =~= p.subrange(0, n));
    }
}

/// The entries for `assigns`, in heading order.
fn lay_out(categories: &Vec<CategoryDef>, assigns: &Vec<(String, String)>) -> (entries: Vec<CategoryEntry>)
    ensures
        entries@.map_values(|e: CategoryEntry| e@)
            == category_entries(categories@, assigns@.map_values(|a: (String, String)| (a.0@, a.1@))),
{
    let ghost av = assigns@.map_values(|a: (String, String)| (a.0@, a.1@));
    let mut out: Vec<CategoryEntry> = Vec::new();
    let mut c: usize = 0;
    while c < categories.len()
        invariant
            c <= categories@.len(),
            av == assigns@.map_values(|a: (String, String)| (a.0@, a.1@)),
            out@.map_values(|e: CategoryEntry| e@) == declared_entries(categories@.subrange(0, c as int), av),
        decreases categories@.len() - c,
    {
        let cat = &categories[c];
        let ghost before = out@.map_values(|e: CategoryEntry| e@);
        assert(categories@.subrange(0, c + 1).drop_last() =~= categories@.subrange(0, c as int));
        let mut a: usize = 0;
        while a < assigns.len()
            invariant
                a <= assigns@.len(),
                av == assigns@.map_values(|a: (String, String)| (a.0@, a.1@)),
                *cat == categories@[c as int],
                out@.map_values(|e: CategoryEntry| e@) == before + group(*cat, av.subrange(0, a as int)),
            decreases assigns@.len() - a,
        {
            assert(av.subrange(0, a + 1).drop_last() =~= av.subrange(0, a as int));
            assert(av[a as int] == (assigns@[a as int].0@, assigns@[a as int].1@));
            let (name, label) = &assigns[a];
            if str_eq(label.as_str(), cat.label.as_str()) {
                let ghost prev = out@;
                out.push(CategoryEntry {
                    name: name.clone(),
                    description: clone_opt(&cat.description),
                    label: cat.label.clone(),
                    title: clone_opt(&cat.title),
                });
                assert(out@.map_values(|e: CategoryEntry| e@) =~= prev.map_values(|e: CategoryEntry| e@).push(out@.last()@));
            }
            a = a + 1;
        }
        assert(av.subrange(0, a as int) =~= av);
        c = c + 1;
    }
    assert(categories@.subrange(0, c as int) =~= categories@);
    let ghost declared = out@.map_values(|e: CategoryEntry| e@);
    let mut a: usize = 0;
    while a < assigns.len()
        invariant
            a <= assigns@.len(),
            av == assigns@.map_values(|a: (String, String)| (a.0@, a.1@)),
            declared == declared_entries(categories@, av),
            out@.map_values(|e: CategoryEntry| e@) == declared + undeclared_entries(categories@, av.subrange(0, a as int)),
        decreases assigns@.len() - a,
    {
        assert(av.subrange(0, a + 1).drop_last() =~= av.subrange(0, a as int));
        assert(av[a as int] == (assigns@[a as int].0@, assigns@[a as int].1@));
        let (name, label) = &assigns[a];
        let mut declared_here = false;
        let mut c: usize = 0;
        while c < categories.len()
            invariant
                c <= categories@.len(),
                declared_here == exists|i: int| 0 <= i < c && #[trigger] categories@[i].label@ == label@,
            decreases categories@.len() - c,
        {
            if str_eq(categories[c].label.as_str(), label.as_str()) {
                declared_here = true;
            }
            c = c + 1;
        }
        if !declared_here {
            let ghost prev = out@;
            out.push(CategoryEntry { name: name.clone(), description: None, label: label.clone(), title: None });
            assert(out@.map_values(|e: CategoryEntry| e@) =~= prev.map_values(|e: CategoryEntry| e@).push(out@.last()@));
        }
        a = a + 1;
    }
    assert(av.subrange(0, a as int) =~= av);
    out
}

} // verus!

verus! {

/// The entry of assignment `a` under the declared category `c`.
pub open spec fn declared_entry(a: (Seq<char>, Seq<char>), c: CategoryDef) -> EntryView {
    EntryView { name: a.0, description: opt_view(c.description), label: c.label@, title: opt_view(c.title) }
}

/// A group holds exactly the entries of the assignments filed under its category.
proof fn lemma_group(c: CategoryDef, assigns: Seq<(Seq<char>, Seq<char>)>)
    ensures
        forall|k: int| 0 <= k < group(c, assigns).len() ==> exists|j: int|
            0 <= j < assigns.len() && assigns[j].1 == c.label@ && #[trigger] group(c, assigns)[k] == declared_entry(assigns[j], c),
        forall|j: int| 0 <= j < assigns.len() && #[trigger] assigns[j].1 == c.label@ ==>
            group(c, assigns).contains(declared_entry(assigns[j], c)),
    decreases assigns.len(),
{
    if assigns.len() > 0 {
        let p = assigns.drop_last();
        lemma_group(c, p);
        let g = group(c, assigns);
        let pg = group(c, p);
        assert forall|k: int| 0 <= k < g.len() implies exists|j: int|
            0 <= j < assigns.len() && assigns[j].1 == c.label@ && #[trigger] g[k] == declared_entry(assigns[j], c) by {
            if k < pg.len() {
                let j = choose|j: int| 0 <= j < p.len() && p[j].1 == c.label@ && #[trigger] pg[k] == declared_entry(p[j], c);
                assert(assigns[j] == p[j]);
            } else {
                assert(g[k] == declared_entry(assigns[assigns.len() - 1], c));
            }
        }
        assert forall|j: int| 0 <= j < assigns.len() && #[trigger] assigns[j].1 == c.label@ implies
            g.contains(declared_entry(assigns[j], c)) by {
            if j < p.len() {
                assert(p[j] == assigns[j]);
                assert(pg.contains(declared_entry(p[j], c)));
                let k = choose|k: int| 0 <= k < pg.len() && pg[k] == declared_entry(p[j], c);
                assert(g[k] == pg[k]);
            } else {
                assert(g[g.len() - 1] == declared_entry(assigns[j], c));
            }
        }
    }
}

/// The declared entries are the groups of the declared categories.
proof fn lemma_declared(cats: Seq<CategoryDef>, assigns: Seq<(Seq<char>, Seq<char>)>)
    ensures
        forall|k: int| 0 <= k < declared_entries(cats, assigns).len() ==> exists|i: int, j: int|
            0 <= i < cats.len() && 0 <= j < assigns.len() && assigns[j].1 == cats[i].label@
                && #[trigger] declared_entries(cats, assigns)[k] == declared_entry(assigns[j], cats[i]),
        forall|i: int, j: int| 0 <= i < cats.len() && 0 <= j < assigns.len() && #[trigger] assigns[j].1 == #[trigger] cats[i].label@ ==>
            declared_entries(cats, assigns).contains(declared_entry(assigns[j], cats[i])),
    decreases cats.len(),
{
    if cats.len() > 0 {
        let p = cats.drop_last();
        let last = cats.last();
        lemma_declared(p, assigns);
        lemma_group(last, assigns);
        let d = declared_entries(cats, assigns);
        let pd = declared_entries(p, assigns);
        let g = group(last, assigns);
        assert(d == pd + g);
        assert forall|k: int| 0 <= k < d.len() implies exists|i: int, j: int|
            0 <= i < cats.len() && 0 <= j < assigns.len() && assigns[j].1 == cats[i].label@
                && #[trigger] d[k] == declared_entry(assigns[j], cats[i]) by {
            if k < pd.len() {
                let (i, j) = choose|i: int, j: int| 0 <= i < p.len() && 0 <= j < assigns.len()
                    && assigns[j].1 == p[i].label@ && #[trigger] pd[k] == declared_entry(assigns[j], p[i]);
                assert(cats[i] == p[i]);
            } else {
                let m = k - pd.len();
                assert(d[k] == g[m]);
                let j = choose|j: int| 0 <= j < assigns.len() && assigns[j].1 == last.label@ && #[trigger] g[m] == declared_entry(assigns[j], last);
                assert(cats[cats.len() - 1] == last);
            }
        }
        assert forall|i: int, j: int| 0 <= i < cats.len() && 0 <= j < assigns.len() && #[trigger] assigns[j].1 == #[trigger] cats[i].label@ implies
            d.contains(declared_entry(assigns[j], cats[i])) by {
            if i < p.len() {
                assert(p[i] == cats[i]);
                assert(pd.contains(declared_entry(assigns[j], p[i])));
                let k = choose|k: int| 0 <= k < pd.len() && pd[k] == declared_entry(assigns[j], p[i]);
                assert(d[k] == pd[k]);
            } else {
                assert(cats[i] == last);
                assert(g.contains(declared_entry(assigns[j], last)));
                let k = choose|k: int| 0 <= k < g.len() && g[k] == declared_entry(assigns[j], last);
                assert(d[pd.len() + k] == g[k]);
            }
        }
    }
}

/// The undeclared entries are the bare entries of the assignments whose label is not declared.
proof fn lemma_undeclared(cats: Seq<CategoryDef>, assigns: Seq<(Seq<char>, Seq<char>)>)
    ensures
        forall|k: int| 0 <= k < undeclared_entries(cats, assigns).len() ==> exists|j: int|
            0 <= j < assigns.len() && !is_declared(cats, assigns[j].1)
                && #[trigger] undeclared_entries(cats, assigns)[k]
                    == (EntryView { name: assigns[j].0, description: None, label: assigns[j].1, title: None }),
        forall|j: int| 0 <= j < assigns.len() && !is_declared(cats, #[trigger] assigns[j].1) ==>
            undeclared_entries(cats, assigns).contains(
                EntryView { name: assigns[j].0, description: None, label: assigns[j].1, title: None },
            ),
    decreases assigns.len(),
{
    if assigns.len() > 0 {
        let p = assigns.drop_last();
        lemma_undeclared(cats, p);
        let u = undeclared_entries(cats, assigns);
        let pu = undeclared_entries(cats, p);
        assert forall|k: int| 0 <= k < u.len() implies exists|j: int|
            0 <= j < assigns.len() && !is_declared(cats, assigns[j].1)
                && #[trigger] u[k] == (EntryView { name: assigns[j].0, description: None, label: assigns[j].1, title: None }) by {
            if k < pu.len() {
                let j = choose|j: int| 0 <= j < p.len() && !is_declared(cats, p[j].1)
                    && #[trigger] pu[k] == (EntryView { name: p[j].0, description: None, label: p[j].1, title: None });
                assert(assigns[j] == p[j]);
            } else {
                assert(u[k] == (EntryView { name: assigns.last().0, description: None, label: assigns.last().1, title: None }));
            }
        }
        assert forall|j: int| 0 <= j < assigns.len() && !is_declared(cats, #[trigger] assigns[j].1) implies
            u.contains(EntryView { name: assigns[j].0, description: None, label: assigns[j].1, title: None }) by {
            let e = EntryView { name: assigns[j].0, description: None, label: assigns[j].1, title: None };
            if j < p.len() {
                assert(p[j] == assigns[j]);
                assert(pu.contains(e));
                let k = choose|k: int| 0 <= k < pu.len() && pu[k] == e;
                assert(u[k] == pu[k]);
            } else {
                assert(u[u.len() - 1] == e);
            }
        }
    }
}

/// Every variant filed under a category gets an entry with its name and label: under its
/// declared category, with that category's title and description, or, for a label not declared
/// here, with the label alone. And every entry is one of these.
pub proof fn law_entries_match_assignments(cats: Seq<CategoryDef>, assigns: Seq<(Seq<char>, Seq<char>)>)
    ensures
        forall|i: int, j: int| 0 <= i < cats.len() && 0 <= j < assigns.len() && #[trigger] assigns[j].1 == #[trigger] cats[i].label@ ==>
            category_entries(cats, assigns).contains(declared_entry(assigns[j], cats[i])),
        forall|j: int| 0 <= j < assigns.len() && !is_declared(cats, #[trigger] assigns[j].1) ==>
            category_entries(cats, assigns).contains(
                EntryView { name: assigns[j].0, description: None, label: assigns[j].1, title: None },
            ),
        forall|k: int| 0 <= k < category_entries(cats, assigns).len() ==> exists|j: int|
            0 <= j < assigns.len() && (#[trigger] category_entries(cats, assigns)[k]).name == assigns[j].0
                && category_entries(cats, assigns)[k].label == assigns[j].1,
{
    lemma_declared(cats, assigns);
    lemma_undeclared(cats, assigns);
    let d = declared_entries(cats, assigns);
    let u = undeclared_entries(cats, assigns);
    let all = category_entries(cats, assigns);
    assert(all == d + u);
    assert forall|i: int, j: int| 0 <= i < cats.len() && 0 <= j < assigns.len() && #[trigger] assigns[j].1 == #[trigger] cats[i].label@ implies
        all.contains(declared_entry(assigns[j], cats[i])) by {
        let k = choose|k: int| 0 <= k < d.len() && d[k] == declared_entry(assigns[j], cats[i]);
        assert(all[k] == d[k]);
    }
    assert forall|j: int| 0 <= j < assigns.len() && !is_declared(cats, #[trigger] assigns[j].1) implies
        all.contains(EntryView { name: assigns[j].0, description: None, label: assigns[j].1, title: None }) by {
        let e = EntryView { name: assigns[j].0, description: None, label: assigns[j].1, title: None };
        let k = choose|k: int| 0 <= k < u.len() && u[k] == e;
        assert(all[d.len() + k] == u[k]);
    }
    assert forall|k: int| 0 <= k < all.len() implies exists|j: int|
        0 <= j < assigns.len() && (#[trigger] all[k]).name == assigns[j].0 && all[k].label == assigns[j].1 by {
        if k < d.len() {
            assert(all[k] == d[k]);
        } else {
            assert(all[k] == u[k - d.len()]);
        }
    }
}

/// Headings follow first appearance in the map, so with distinct declared labels the entries of
/// the declared categories come category by category in declared order: an entry never follows
/// one of a later-declared category.
pub proof fn law_entries_in_declared_order(cats: Seq<CategoryDef>, assigns: Seq<(Seq<char>, Seq<char>)>)
    requires
        forall|a: int, b: int| 0 <= a < b < cats.len() ==> cats[a].label@ != cats[b].label@,
    ensures
        forall|a: int, b: int, i: int, j: int|
            #![trigger declared_entries(cats, assigns)[a], declared_entries(cats, assigns)[b], cats[i], cats[j]]
            0 <= a < b < declared_entries(cats, assigns).len() && 0 <= i < cats.len() && 0 <= j < cats.len()
                && cats[i].label@ == declared_entries(cats, assigns)[a].label
                && cats[j].label@ == declared_entries(cats, assigns)[b].label ==> i <= j,
    decreases cats.len(),
{
    if cats.len() > 0 {
        let p = cats.drop_last();
        let n = cats.len() - 1;
        assert forall|a: int, b: int| 0 <= a < b < p.len() implies p[a].label@ != p[b].label@ by {
            assert(p[a] == cats[a] && p[b] == cats[b]);
        }
        law_entries_in_declared_order(p, assigns);
        lemma_declared(p, assigns);
        lemma_group(cats[n], assigns);
        let d = declared_entries(cats, assigns);
        let pd = declared_entries(p, assigns);
        let g = group(cats[n], assigns);
        assert(d == pd + g);
        assert forall|a: int, b: int, i: int, j: int|
            #![trigger d[a], d[b], cats[i], cats[j]]
            0 <= a < b < d.len() && 0 <= i < cats.len() && 0 <= j < cats.len()
                && cats[i].label@ == d[a].label && cats[j].label@ == d[b].label implies i <= j by {
            if b >= pd.len() {
                let m = b - pd.len();
                assert(d[b] == g[m]);
                let jj = choose|jj: int| 0 <= jj < assigns.len() && assigns[jj].1 == cats[n].label@ && #[trigger] g[m] == declared_entry(assigns[jj], cats[n]);
                assert(j == n);
            } else {
                assert(d[a] == pd[a] && d[b] == pd[b]);
                let (ia, ja) = choose|ia: int, ja: int| 0 <= ia < p.len() && 0 <= ja < assigns.len()
                    && assigns[ja].1 == p[ia].label@ && #[trigger] pd[a] == declared_entry(assigns[ja], p[ia]);
                let (ib, jb) = choose|ib: int, jb: int| 0 <= ib < p.len() && 0 <= jb < assigns.len()
                    && assigns[jb].1 == p[ib].label@ && #[trigger] pd[b] == declared_entry(assigns[jb], p[ib]);
                assert(cats[ia] == p[ia] && cats[ib] == p[ib]);
                assert(i == ia);
                assert(j == ib);
                assert(p[i].label@ == pd[a].label);
                assert(p[j].label@ == pd[b].label);
            }
        }
    }
}

} // verus!
