//! The tree that a comparison of two directories yields: for each entry of
//! the source directory, whether its counterpart is missing, how the two
//! files compare, or the tree of the subdirectory.

use vstd::prelude::*;
use vstd::string::*;
use crate::text::{path_debug_text, path_debug_quote, indent, indentation};
use crate::keyed::{keys_distinct, has_key, pairs_view, lemma_pairs_view_at, lemma_pairs_view_update, lemma_pairs_view_push, find_key, pairs_insert, key_index, lemma_key_index, insert_all, map_of_inserts, lemma_insert_all};

verus! {

/// How an entry compares with its counterpart.
#[derive(Debug, Clone, Copy, PartialEq, Eq, Structural)]
pub enum EntryStatus {
    Equal,
    Unknow,
    Different,
}

/// The result of comparing an entry of the source with the destination.
#[derive(Debug)]
pub enum EntryTree {
    Missing,
    File(EntryStatus),
    Directory { children: Children, status: EntryStatus },
}

/// The entries of a directory node, keyed by their path in the destination.
/// No path occurs twice; inserting a path that is present replaces its node.
#[derive(Debug)]
pub struct Children {
    entries: Vec<(String, EntryTree)>,
}

impl Children {
    #[verifier::type_invariant]
    spec fn paths_distinct(self) -> bool {
        keys_distinct(self.entries@)
    }

    /// The entries, in the order in which they were first inserted.
    pub closed spec fn pairs(self) -> Seq<(String, EntryTree)> {
        self.entries@
    }

    /// The entries as a map from paths to nodes.
    pub open spec fn map(self) -> Map<Seq<char>, EntryTree> {
        pairs_view(self.pairs())
    }

    pub fn new() -> (c: Children)
        ensures
            c.map() == Map::<Seq<char>, EntryTree>::empty(),
            c.pairs().len() == 0,
            keys_distinct(c.pairs()),
    {
        let c = Children { entries: Vec::new() };
        assert(c.map() =~= Map::<Seq<char>, EntryTree>::empty());
        c
    }

    /// Adds `node` under `path`, replacing any node of that path.
    pub fn insert(&mut self, path: String, node: EntryTree)
        ensures
            final(self).pairs() == pairs_insert(old(self).pairs(), path, node),
            keys_distinct(final(self).pairs()),
            final(self).map() == old(self).map().insert(path@, node),
    {
        proof {
            use_type_invariant(&*self);
        }
        let mut entries = Vec::new();
        std::mem::swap(&mut entries, &mut self.entries);
        let ghost before = entries@;
        match find_key(&entries, &path) {
            Some(i) => {
                proof {
                    lemma_key_index(before, i as int);
                    lemma_pairs_view_update(before, i as int, path, node);
                }
                entries.set(i, (path, node));
            },
            None => {
                proof {
                    lemma_pairs_view_push(before, path, node);
                }
                entries.push((path, node));
            },
        }
        self.entries = entries;
    }

    /// The node of the given path, if there is one.
    pub fn get(&self, path: &String) -> (r: Option<&EntryTree>)
        ensures
            match r {
                Some(t) => self.map().contains_key(path@) && *t == self.map()[path@],
                None => !self.map().contains_key(path@),
            },
    {
        proof {
            use_type_invariant(self);
        }
        match find_key(&self.entries, path) {
            Some(i) => {
                proof {
                    lemma_pairs_view_at(self.entries@, i as int);
                }
                Some(&self.entries[i].1)
            },
            None => None,
        }
    }

    /// The number of entries.
    pub fn len(&self) -> (n: usize)
        ensures
            n == self.pairs().len(),
            keys_distinct(self.pairs()),
    {
        proof {
            use_type_invariant(self);
        }
        self.entries.len()
    }
}

impl EntryTree {
    /// An empty directory node whose own status is not known yet.
    pub fn new_dir() -> (t: EntryTree)
        ensures
            t matches EntryTree::Directory { children, status }
                && children.map() == Map::<Seq<char>, EntryTree>::empty()
                && children.pairs().len() == 0
                && status == EntryStatus::Unknow,
    {
        EntryTree::Directory { children: Children::new(), status: EntryStatus::Unknow }
    }

    /// Adds `node` under `new_path` to a directory node, replacing any node of
    /// that path. Only a directory node has entries.
    pub fn insert(&mut self, new_path: String, node: EntryTree)
        requires
            *old(self) is Directory,
        ensures
            *final(self) is Directory,
            final(self)->status == old(self)->status,
            final(self)->children.pairs() == pairs_insert(old(self)->children.pairs(), new_path, node),
            final(self)->children.map() == old(self)->children.map().insert(new_path@, node),
    {
        match self {
            EntryTree::Directory { children, status: _ } => {
                children.insert(new_path, node);
            },
            _ => {},
        }
    }
}


/// The word that is printed for a status.
pub open spec fn status_name(s: EntryStatus) -> Seq<char> {
    match s {
        EntryStatus::Equal => "Ok"@,
        EntryStatus::Unknow => "Unknow"@,
        EntryStatus::Different => "Different"@,
    }
}

/// The word that is printed for a status.
pub fn status_word(s: EntryStatus) -> (r: &'static str)
    ensures
        r@ == status_name(s),
{
    match s {
        EntryStatus::Equal => "Ok",
        EntryStatus::Unknow => "Unknow",
        EntryStatus::Different => "Different",
    }
}

/// The depth of the nested directory nodes of a tree.
pub open spec fn height(t: EntryTree) -> nat
    decreases t,
{
    match t {
        EntryTree::Directory { children, status: _ } => 1 + pairs_height(children.pairs()),
        _ => 0,
    }
}

/// The greatest height among the nodes of a list of entries.
pub open spec fn pairs_height(s: Seq<(String, EntryTree)>) -> nat
    decreases s,
{
    if s.len() == 0 {
        0
    } else {
        let rest = pairs_height(s.drop_last());
        let last = height(s.last().1);
        if rest >= last { rest } else { last }
    }
}

/// The text that printing a tree at indentation level `n` gives: a file
/// node prints its status, a missing node `Missing`, and a directory node,
/// entry by entry, the indentation, ` => `, the quoted path and `: `, then
/// (after a line break where the entry is a directory) the entry's own text
/// one level deeper.
pub open spec fn tree_text(t: EntryTree, n: nat) -> Seq<char>
    decreases t,
{
    match t {
        EntryTree::Missing => "Missing\n"@,
        EntryTree::File(s) => status_name(s) + "\n"@,
        EntryTree::Directory { children, status: _ } => pairs_text(children.pairs(), n),
    }
}

/// The text of the entries of a directory node printed at level `n`.
pub open spec fn pairs_text(s: Seq<(String, EntryTree)>, n: nat) -> Seq<char>
    decreases s,
{
    if s.len() == 0 {
        Seq::empty()
    } else {
        let (path, node) = s.last();
        pairs_text(s.drop_last(), n) + indent(n) + " => "@ + path_debug_text(path@) + ": "@
            + (if node is Directory { "\n"@ } else { Seq::empty() }) + tree_text(node, n + 1)
    }
}

/// Every node among the entries is no higher than the entries' height.
proof fn lemma_pairs_height(s: Seq<(String, EntryTree)>, i: int)
    requires
        0 <= i < s.len(),
    ensures
        height(s[i].1) <= pairs_height(s),
    decreases s.len(),
{
    if i < s.len() - 1 {
        lemma_pairs_height(s.drop_last(), i);
        assert(s.drop_last()[i] == s[i]);
    }
}

/// `h` capped at the greatest `usize`.
pub open spec fn capped(h: nat) -> nat {
    if h <= usize::MAX { h } else { usize::MAX as nat }
}

impl EntryTree {
    /// The height of the tree, capped at the greatest `usize`; a tree can be
    /// rendered from level 0 when this is below the cap.
    pub fn height_capped(&self) -> (h: usize)
        ensures
            h as nat == capped(height(*self)),
        decreases *self,
    {
        match self {
            EntryTree::Directory { children, status: _ } => {
                let len = children.entries.len();
                let ghost s = children.entries@;
                let mut best: usize = 0;
                let mut i: usize = 0;
                while i < len
                    invariant
                        i <= len,
                        len == s.len(),
                        s == children.pairs(),
                        *self is Directory,
                        self->children == *children,
                        best as nat == capped(pairs_height(s.take(i as int))),
                    decreases len - i,
                {
                    proof {
                        assert(s.take(i + 1).drop_last() == s.take(i as int));
                        assert(s.take(i + 1).last() == s[i as int]);
                        assert(decreases_to!(*self => self->children));
                        assert(decreases_to!(self->children => self->children.entries));
                        assert(decreases_to!(children.entries => children.entries@));
                        assert(decreases_to!(children.entries@ => children.entries@[i as int]));
                        assert(decreases_to!(children.entries@[i as int] => children.entries@[i as int].1));
                    }
                    let h = children.entries[i].1.height_capped();
                    if h > best {
                        best = h;
                    }
                    i = i + 1;
                }
                assert(s.take(len as int) == s);
                if best < usize::MAX { best + 1 } else { best }
            },
            _ => 0,
        }
    }

    /// The text that printing the tree at indentation level `n` gives.
    pub fn render(&self, n: usize) -> (r: String)
        requires
            n + height(*self) <= usize::MAX,
        ensures
            r@ == tree_text(*self, n as nat),
        decreases *self,
    {
        match self {
            EntryTree::Missing => String::from_str("Missing\n"),
            EntryTree::File(s) => {
                let mut out = String::from_str(status_word(*s));
                out.append("\n");
                out
            },
            EntryTree::Directory { children, status: _ } => {
                let pad = indentation(n);
                let mut out = String::new();
                let len = children.entries.len();
                let ghost s = children.entries@;
                let mut i: usize = 0;
                while i < len
                    invariant
                        i <= len,
                        len == s.len(),
                        s == children.pairs(),
                        *self is Directory,
                        self->children == *children,
                        pad@ == indent(n as nat),
                        n + 1 + pairs_height(s) <= usize::MAX,
                        out@ == pairs_text(s.take(i as int), n as nat),
                    decreases len - i,
                {
                    let (path, node) = (&children.entries[i].0, &children.entries[i].1);
                    proof {
                        lemma_pairs_height(s, i as int);
                        assert(s.take(i + 1).drop_last() == s.take(i as int));
                        assert(s.take(i + 1).last() == s[i as int]);
                    }
                    out.append(pad.as_str());
                    out.append(" => ");
                    let quoted = path_debug_quote(path.as_str());
                    out.append(quoted.as_str());
                    out.append(": ");
                    match node {
                        EntryTree::Directory { .. } => out.append("\n"),
                        _ => {},
                    }
                    proof {
                        assert(decreases_to!(*self => self->children));
                        assert(decreases_to!(self->children => self->children.entries));
                        assert(decreases_to!(children.entries => children.entries@));
                        assert(decreases_to!(children.entries@ => children.entries@[i as int]));
                        assert(decreases_to!(children.entries@[i as int] => children.entries@[i as int].1));
                    }
                    let inner = node.render(n + 1);
                    out.append(inner.as_str());
                    proof {
                        assert(out@ =~= pairs_text(s.take(i + 1), n as nat));
                    }
                    i = i + 1;
                }
                assert(s.take(len as int) == s);
                out
            },
        }
    }
}


/// Reading an entry back after inserting it gives the inserted node, and
/// inserting an entry leaves every other path as it was: where `after` is
/// `before` after `Children::insert(path, node)`, `Children::get` finds
/// `node` under `path`, and under any other path what it found in `before`;
/// the number of entries grows by one exactly where the path was new.
pub proof fn law_children_read_after_write(before: Children, after: Children, path: String, node: EntryTree, other: String)
    requires
        keys_distinct(before.pairs()),
        after.pairs() == pairs_insert(before.pairs(), path, node),
    ensures
        after.map().contains_key(path@),
        after.map()[path@] == node,
        other@ != path@ ==> (after.map().contains_key(other@) == before.map().contains_key(other@)),
        other@ != path@ && before.map().contains_key(other@) ==> after.map()[other@] == before.map()[other@],
        after.pairs().len() == before.pairs().len() + (if before.map().contains_key(path@) { 0int } else { 1int }),
{
    let s = before.pairs();
    if has_key(s, path@) {
        let i = key_index(s, path@);
        lemma_pairs_view_update(s, i, path, node);
    } else {
        lemma_pairs_view_push(s, path, node);
    }
}


/// A directory node built by `EntryTree::new_dir` and then `insert` of the
/// pairs of `s`, one after the other, has as entries the pairs
/// `insert_all(s)` (the first contracts give that step by step). Those hold
/// exactly the paths of `s`, each with the last node inserted under it, and
/// there is one entry per distinct path, which `Children::len` counts.
pub proof fn law_tree_from_inserts(s: Seq<(String, EntryTree)>)
    ensures
        keys_distinct(insert_all(s)),
        pairs_view(insert_all(s)) == map_of_inserts(s),
        forall|k: Seq<char>| #[trigger] map_of_inserts(s).contains_key(k) <==> has_key(s, k),
        insert_all(s).len() == map_of_inserts(s).dom().len(),
{
    lemma_insert_all(s);
}


/// The number of entry lines that printing a tree gives: one per entry of
/// every directory node, however deep.
pub open spec fn entry_count(t: EntryTree) -> nat
    decreases t,
{
    match t {
        EntryTree::Directory { children, status: _ } => pairs_count(children.pairs()),
        _ => 0,
    }
}

/// The number of entry lines that printing a list of entries gives.
pub open spec fn pairs_count(s: Seq<(String, EntryTree)>) -> nat
    decreases s,
{
    if s.len() == 0 {
        0
    } else {
        pairs_count(s.drop_last()) + 1 + entry_count(s.last().1)
    }
}

/// Printing a tree one level deeper indents every entry line, at every
/// depth, by two more spaces: the text grows by two characters per entry of
/// the whole tree. (A nested entry that did not move with its parent would
/// break this.)
pub proof fn law_render_shifts_every_line(t: EntryTree, n: nat)
    ensures
        tree_text(t, n + 1).len() == tree_text(t, n).len() + 2 * entry_count(t),
    decreases t,
{
    match t {
        EntryTree::Directory { children, status: _ } => {
            lemma_pairs_text_shift(children.pairs(), n);
        },
        _ => {},
    }
}

/// Printing a list of entries one level deeper adds two characters per
/// entry line.
pub proof fn lemma_pairs_text_shift(s: Seq<(String, EntryTree)>, n: nat)
    ensures
        pairs_text(s, n + 1).len() == pairs_text(s, n).len() + 2 * pairs_count(s),
    decreases s,
{
    if s.len() > 0 {
        lemma_pairs_text_shift(s.drop_last(), n);
        law_render_shifts_every_line(s.last().1, n + 1);
        assert(indent(n + 1).len() == indent(n).len() + 2);
    }
}

/// The first entry line of a directory node with entries, printed at level
/// `n`, begins with exactly `n` levels of indentation and then ` => `.
pub proof fn law_first_line_indent(s: Seq<(String, EntryTree)>, n: nat)
    requires
        s.len() > 0,
    ensures
        pairs_text(s, n).len() >= 2 * n + 4,
        pairs_text(s, n).take((2 * n + 4) as int) == indent(n) + " => "@,
    decreases s.len(),
{
    reveal_strlit(" => ");
    assert(" => "@.len() == 4);
    if s.len() == 1 {
        assert(pairs_text(s.drop_last(), n) == Seq::<char>::empty());
        assert(pairs_text(s, n).take((2 * n + 4) as int) =~= indent(n) + " => "@);
    } else {
        law_first_line_indent(s.drop_last(), n);
        let p = pairs_text(s.drop_last(), n);
        assert(pairs_text(s, n).take((2 * n + 4) as int) =~= p.take((2 * n + 4) as int));
    }
}

} // verus!
