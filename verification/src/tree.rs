//! The tree of marked args that `#[derive(Couture)]` builds: each command level's marks, the
//! types merged into it and the subcommands below it.

use vstd::prelude::*;

verus! {

/// One `#[couture(prompt)]`.
#[derive(Clone, Copy)]
pub struct PromptSpec {
    /// The clap id of the marked arg.
    pub id: &'static str,
    /// The `prompt = "..."` override; `None` asks the arg's help text.
    pub question: Option<&'static str>,
}

/// What hangs off one command level besides its own marked args.
pub enum PromptChild {
    /// A node merged into this level: a flattened `Args` type, or the subcommand enum.
    Flatten(Box<PromptNode>),
    /// The subcommand with this name.
    Subcommand(&'static str, Box<PromptNode>),
}

/// The marked args of one command level, and the tree below it.
pub struct PromptNode {
    /// The args marked at this level.
    pub args: Vec<PromptSpec>,
    /// Merged nodes and subcommands.
    pub children: Vec<PromptChild>,
}

/// A marked arg and the subcommand path to the command that owns it.
pub struct Mark {
    /// Subcommand names from the root, empty for a root arg.
    pub path: Vec<&'static str>,
    /// The mark itself.
    pub spec: PromptSpec,
}

impl View for Mark {
    type V = (Seq<&'static str>, PromptSpec);

    open spec fn view(&self) -> (Seq<&'static str>, PromptSpec) {
        (self.path@, self.spec)
    }
}

/// Every mark of `node` reached at `path`: the level's own marks, then its children's, in
/// declaration order; a subcommand child extends the path with its name.
pub open spec fn node_marks(node: PromptNode, path: Seq<&'static str>) -> Seq<(Seq<&'static str>, PromptSpec)>
    decreases node,
{
    node.args@.map_values(|s: PromptSpec| (path, s)) + children_marks(node.children@, path, node.children@.len() as int)
}

/// The marks of the first `n` children, reached at `path`.
pub open spec fn children_marks(children: Seq<PromptChild>, path: Seq<&'static str>, n: int) -> Seq<(Seq<&'static str>, PromptSpec)>
    decreases children, n,
{
    if n <= 0 || n > children.len() {
        Seq::empty()
    } else {
        children_marks(children, path, n - 1) + match children[n - 1] {
            PromptChild::Flatten(node) => node_marks(*node, path),
            PromptChild::Subcommand(name, node) => node_marks(*node, path.push(name)),
        }
    }
}

/// `marks` with `prefix` put in front of each path.
pub open spec fn prefixed(marks: Seq<(Seq<&'static str>, PromptSpec)>, prefix: Seq<&'static str>) -> Seq<(Seq<&'static str>, PromptSpec)> {
    marks.map_values(|m: (Seq<&'static str>, PromptSpec)| (prefix + m.0, m.1))
}

proof fn lemma_prefixed_concat(a: Seq<(Seq<&'static str>, PromptSpec)>, b: Seq<(Seq<&'static str>, PromptSpec)>, p: Seq<&'static str>)
    ensures
        prefixed(a + b, p) == prefixed(a, p) + prefixed(b, p),
{
    assert(prefixed(a + b, p) =~= prefixed(a, p) + prefixed(b, p));
}

proof fn lemma_prefixed_twice(a: Seq<(Seq<&'static str>, PromptSpec)>, p: Seq<&'static str>, name: &'static str)
    ensures
        prefixed(prefixed(a, seq![name]), p) == prefixed(a, p.push(name)),
{
    assert forall|k: int| 0 <= k < a.len() implies p + (seq![name] + #[trigger] a[k].0) == p.push(name) + a[k].0 by {
        assert(p + (seq![name] + a[k].0) =~= p.push(name) + a[k].0);
    }
    assert(prefixed(prefixed(a, seq![name]), p) =~= prefixed(a, p.push(name)));
}

/// The marks of a node reached at `path` are the node's own marks, with `path` put in front of
/// each of their paths.
pub proof fn law_marks_at_path(node: PromptNode, path: Seq<&'static str>)
    ensures
        node_marks(node, path) == prefixed(node_marks(node, Seq::empty()), path),
    decreases node,
{
    let own_here = node.args@.map_values(|s: PromptSpec| (path, s));
    let own_root = node.args@.map_values(|s: PromptSpec| (Seq::<&'static str>::empty(), s));
    assert forall|k: int| 0 <= k < own_root.len() implies path + (#[trigger] own_root[k]).0 == path by {
        assert(path + own_root[k].0 =~= path);
    }
    assert(own_here =~= prefixed(own_root, path));
    assert(decreases_to!(node => node.children));
    assert(decreases_to!(node.children => node.children@));
    lemma_children_marks_at_path(node.children@, path, node.children@.len() as int);
    lemma_prefixed_concat(own_root, children_marks(node.children@, Seq::empty(), node.children@.len() as int), path);
}

/// The marks of the first `n` children reached at `path` are their marks at the root with
/// `path` put in front.
proof fn lemma_children_marks_at_path(children: Seq<PromptChild>, path: Seq<&'static str>, n: int)
    ensures
        children_marks(children, path, n) == prefixed(children_marks(children, Seq::empty(), n), path),
    decreases children, n,
{
    if n <= 0 || n > children.len() {
        assert(prefixed(Seq::empty(), path) =~= Seq::empty());
    } else {
        lemma_children_marks_at_path(children, path, n - 1);
        let rest = children_marks(children, Seq::empty(), n - 1);
        assert(decreases_to!(children => children[n - 1]));
        match children[n - 1] {
            PromptChild::Flatten(node) => {
                assert(decreases_to!(children[n - 1] => *node));
                law_marks_at_path(*node, path);
                lemma_prefixed_concat(rest, node_marks(*node, Seq::empty()), path);
            },
            PromptChild::Subcommand(name, node) => {
                assert(decreases_to!(children[n - 1] => *node));
                law_marks_at_path(*node, path.push(name));
                law_marks_at_path(*node, Seq::<&'static str>::empty().push(name));
                assert(Seq::<&'static str>::empty().push(name) =~= seq![name]);
                lemma_prefixed_twice(node_marks(*node, Seq::empty()), path, name);
                lemma_prefixed_concat(rest, node_marks(*node, Seq::empty().push(name)), path);
            },
        }
    }
}

/// A subcommand child's marks, as its parent reaches them at `path`, are the child's own marks
/// with `path` and the subcommand's name put in front of each path.
pub proof fn law_subcommand_marks(name: &'static str, child: PromptNode, path: Seq<&'static str>)
    ensures
        children_marks(seq![PromptChild::Subcommand(name, Box::new(child))], path, 1)
            == prefixed(node_marks(child, Seq::empty()), path.push(name)),
{
    let children = seq![PromptChild::Subcommand(name, Box::new(child))];
    assert(children_marks(children, path, 0) == Seq::<(Seq<&'static str>, PromptSpec)>::empty());
    law_marks_at_path(child, path.push(name));
    assert(children_marks(children, path, 1) =~= node_marks(child, path.push(name)));
}

impl PromptNode {
    /// A node with no marks, the default for a hand-written `Couture` impl.
    pub fn empty() -> (node: Self)
        ensures
            node.args@.len() == 0,
            node.children@.len() == 0,
    {
        PromptNode { args: Vec::new(), children: Vec::new() }
    }

    fn collect(&self, path: &mut Vec<&'static str>, marks: &mut Vec<Mark>)
        ensures
            final(path)@ == old(path)@,
            final(marks)@.map_values(|m: Mark| m@) == old(marks)@.map_values(|m: Mark| m@) + node_marks(*self, old(path)@),
            final(marks)@.map_values(|m: Mark| m@) == old(marks)@.map_values(|m: Mark| m@)
                + prefixed(node_marks(*self, Seq::empty()), old(path)@),
        decreases *self,
    {
        proof {
            law_marks_at_path(*self, path@);
        }
        let ghost start = marks@.map_values(|m: Mark| m@);
        let mut i: usize = 0;
        while i < self.args.len()
            invariant
                i <= self.args@.len(),
                marks@.map_values(|m: Mark| m@)
                    == start + self.args@.subrange(0, i as int).map_values(|s: PromptSpec| (path@, s)),
            decreases self.args@.len() - i,
        {
            let ghost before = marks@;
            marks.push(Mark { path: path.clone(), spec: self.args[i] });
            proof {
                assert(marks@.map_values(|m: Mark| m@) =~= before.map_values(|m: Mark| m@).push((path@, self.args@[i as int])));
                assert(self.args@.subrange(0, i + 1).map_values(|s: PromptSpec| (path@, s))
                    =~= self.args@.subrange(0, i as int).map_values(|s: PromptSpec| (path@, s)).push((path@, self.args@[i as int])));
            }
            i = i + 1;
        }
        assert(self.args@.subrange(0, i as int) =~= self.args@);
        let ghost own = start + self.args@.map_values(|s: PromptSpec| (path@, s));
        let ghost at = path@;
        let mut c: usize = 0;
        while c < self.children.len()
            invariant
                c <= self.children@.len(),
                path@ == at,
                marks@.map_values(|m: Mark| m@) == own + children_marks(self.children@, at, c as int),
            decreases self.children@.len() - c,
        {
            let ghost before = marks@.map_values(|m: Mark| m@);
            proof {
                assert(decreases_to!(*self => self.children));
                assert(decreases_to!(self.children => self.children@));
                assert(decreases_to!(self.children@ => self.children@[c as int]));
            }
            match &self.children[c] {
                PromptChild::Flatten(node) => {
                    proof {
                        assert(decreases_to!(self.children@[c as int] => **node));
                    }
                    node.collect(path, marks);
                },
                PromptChild::Subcommand(name, node) => {
                    proof {
                        assert(decreases_to!(self.children@[c as int] => **node));
                    }
                    path.push(*name);
                    node.collect(path, marks);
                    path.pop();
                },
            }
            proof {
                assert(marks@.map_values(|m: Mark| m@) =~= own + children_marks(self.children@, at, c + 1));
            }
            c = c + 1;
        }
    }

    /// Every mark in the tree: a level's own marks, then its children's, in declaration order.
    pub fn marks(&self) -> (marks: Vec<Mark>)
        ensures
            marks@.map_values(|m: Mark| m@) == node_marks(*self, Seq::empty()),
    {
        let mut marks: Vec<Mark> = Vec::new();
        let mut path: Vec<&'static str> = Vec::new();
        self.collect(&mut path, &mut marks);
        assert(Seq::<Mark>::empty().map_values(|m: Mark| m@) + node_marks(*self, Seq::empty()) =~= node_marks(*self, Seq::empty()));
        marks
    }
}

} // verus!
