//! The menu tree: every discovered node, owned by one flat index and keyed by
//! its id; parent and child edges are ids.

use vstd::prelude::*;
use crate::text::{chars_of, matches_at};

verus! {

/// Ids of category nodes, which hold sub-menus, start with this text.
pub const CATEGORY_PREFIX: &'static str = "submenu_";

/// A node of the menu.
pub struct Node {
    pub id: String,
    pub name: String,
    pub children: Vec<String>,
    pub parent: Option<String>,
}

pub struct NodeView {
    pub id: Seq<char>,
    pub name: Seq<char>,
    pub children: Seq<Seq<char>>,
    pub parent: Option<Seq<char>>,
}

impl View for Node {
    type V = NodeView;

    open spec fn view(&self) -> NodeView {
        NodeView {
            id: self.id@,
            name: self.name@,
            children: self.children@.map_values(|c: String| c@),
            parent: match self.parent {
                Some(p) => Some(p@),
                None => None,
            },
        }
    }
}

/// The id marks a category node.
pub open spec fn is_category(id: Seq<char>) -> bool {
    id.len() >= CATEGORY_PREFIX@.len() && id.subrange(0, CATEGORY_PREFIX@.len() as int)
        == CATEGORY_PREFIX@
}

/// A node is loaded when a category node has children or a leaf node has none.
pub open spec fn loaded(n: NodeView) -> bool {
    is_category(n.id) == (n.children.len() > 0)
}

pub open spec fn leaf(n: NodeView) -> bool {
    !is_category(n.id) && n.children.len() == 0
}

fn id_is_category(id: &String) -> (r: bool)
    ensures
        r == is_category(id@),
{
    let c = chars_of(id.as_str());
    let p = chars_of(CATEGORY_PREFIX);
    let r = matches_at(&c, &p, 0);
    assert(r ==> c@.subrange(0, p@.len() as int) == p@);
    r
}

impl Node {
    /// A node with no children yet.
    pub fn new(id: String, name: String, parent: Option<String>) -> (r: Node)
        ensures
            r.id == id,
            r.name == name,
            r.parent == parent,
            r.children@.len() == 0,
    {
        Node { id, name, children: Vec::new(), parent }
    }

    /// Appends a child id to the node's children.
    pub fn add_child(&mut self, child: String)
        ensures
            final(self).children@ == old(self).children@.push(child),
            final(self).id == old(self).id,
            final(self).name == old(self).name,
            final(self).parent == old(self).parent,
    {
        self.children.push(child);
    }

    /// The ids of the node's children, in the order they were added.
    pub fn get_children(&self) -> (r: &Vec<String>)
        ensures
            r == &self.children,
    {
        &self.children
    }

    /// Whether the node's children are known.
    pub fn is_loaded(&self) -> (r: bool)
        ensures
            r == loaded(self@),
    {
        id_is_category(&self.id) == (self.children.len() > 0)
    }

    /// Whether the node is a leaf: not a category, and without children.
    pub fn is_leaf(&self) -> (r: bool)
        ensures
            r == leaf(self@),
    {
        !id_is_category(&self.id) && self.children.len() == 0
    }
}

/// The node registered last under `id` in `s`.
pub open spec fn lookup(s: Seq<NodeView>, id: Seq<char>) -> Option<NodeView>
    decreases s.len(),
{
    if s.len() == 0 {
        None
    } else if s.last().id == id {
        Some(s.last())
    } else {
        lookup(s.drop_last(), id)
    }
}

/// No two nodes of `s` share an id.
pub open spec fn unique_ids(s: Seq<NodeView>) -> bool {
    forall|i: int, j: int| 0 <= i < j < s.len() ==> s[i].id != s[j].id
}

proof fn lemma_lookup_at(s: Seq<NodeView>, i: int)
    requires
        unique_ids(s),
        0 <= i < s.len(),
    ensures
        lookup(s, s[i].id) == Some(s[i]),
    decreases s.len(),
{
    if i < s.len() - 1 {
        assert(s.last().id != s[i].id);
        assert(s.drop_last()[i] == s[i]);
        lemma_lookup_at(s.drop_last(), i);
    }
}

/// A node found under `id` has that id.
pub proof fn lemma_lookup_id(s: Seq<NodeView>, id: Seq<char>)
    ensures
        lookup(s, id) matches Some(n) ==> n.id == id,
    decreases s.len(),
{
    if s.len() > 0 && s.last().id != id {
        lemma_lookup_id(s.drop_last(), id);
    }
}

proof fn lemma_lookup_absent(s: Seq<NodeView>, id: Seq<char>)
    requires
        forall|i: int| 0 <= i < s.len() ==> s[i].id != id,
    ensures
        lookup(s, id) is None,
    decreases s.len(),
{
    if s.len() > 0 {
        assert(s[s.len() - 1].id != id);
        lemma_lookup_absent(s.drop_last(), id);
    }
}

proof fn lemma_lookup_update(s: Seq<NodeView>, i: int, v: NodeView)
    requires
        unique_ids(s),
        0 <= i < s.len(),
        v.id == s[i].id,
    ensures
        unique_ids(s.update(i, v)),
        lookup(s.update(i, v), v.id) == Some(v),
        forall|k: Seq<char>| k != v.id ==> #[trigger] lookup(s.update(i, v), k) == lookup(s, k),
{
    let t = s.update(i, v);
    assert(unique_ids(t));
    lemma_lookup_at(t, i);
    assert forall|k: Seq<char>| k != v.id implies #[trigger] lookup(t, k) == lookup(s, k) by {
        if exists|j: int| 0 <= j < s.len() && s[j].id == k {
            let j = choose|j: int| 0 <= j < s.len() && s[j].id == k;
            lemma_lookup_at(s, j);
            lemma_lookup_at(t, j);
        } else {
            lemma_lookup_absent(s, k);
            lemma_lookup_absent(t, k);
        }
    }
}

/// `n` with `c` appended to its children.
pub open spec fn with_child(n: NodeView, c: Seq<char>) -> NodeView {
    NodeView { id: n.id, name: n.name, children: n.children.push(c), parent: n.parent }
}

/// `n` with `p` as its parent.
pub open spec fn with_parent(n: NodeView, p: Seq<char>) -> NodeView {
    NodeView { id: n.id, name: n.name, children: n.children, parent: Some(p) }
}

/// Whether `add_child` attaches a child under `id` to `parent`: it is not
/// the parent itself, nor already one of its children.
pub open spec fn attachable(parent: NodeView, id: Seq<char>) -> bool {
    id != parent.id && !parent.children.contains(id)
}

/// A category node is not loaded before its first child and is loaded after
/// one is attached.
pub proof fn lemma_category_loads(n: NodeView, c: Seq<char>)
    requires
        is_category(n.id),
    ensures
        n.children.len() == 0 ==> !loaded(n),
        loaded(with_child(n, c)),
{
}

/// A node whose id is not a category's is a leaf and loaded while it has no
/// children.
pub proof fn lemma_leaf_loaded(n: NodeView)
    requires
        !is_category(n.id),
        n.children.len() == 0,
    ensures
        leaf(n),
        loaded(n),
{
}

/// A root node: no parent and no children yet.
pub open spec fn root_view(id: Seq<char>, name: Seq<char>) -> NodeView {
    NodeView { id, name, children: Seq::empty(), parent: None }
}

pub struct MenuView {
    pub language_code: u32,
    pub schooling_id: Seq<char>,
    pub user_planning_id: Seq<char>,
    pub groups_planning_id: Seq<char>,
    pub nodes: Seq<NodeView>,
}

/// The menu tree, with its three well-known ids.
pub struct Menu {
    language_code: u32,
    schooling_id: String,
    user_planning_id: String,
    groups_planning_id: String,
    nodes: Vec<Node>,
}

impl View for Menu {
    type V = MenuView;

    closed spec fn view(&self) -> MenuView {
        MenuView {
            language_code: self.language_code,
            schooling_id: self.schooling_id@,
            user_planning_id: self.user_planning_id@,
            groups_planning_id: self.groups_planning_id@,
            nodes: self.nodes@.map_values(|n: Node| n@),
        }
    }
}

impl Menu {
    /// The node registered under `id`.
    pub open spec fn node(&self, id: Seq<char>) -> Option<NodeView> {
        lookup(self@.nodes, id)
    }

    /// Whether the node under `id` exists and is loaded.
    pub open spec fn loaded_node(&self, id: Seq<char>) -> bool {
        match self.node(id) {
            Some(n) => loaded(n),
            None => false,
        }
    }

    pub open spec fn wf(&self) -> bool {
        unique_ids(self@.nodes)
    }

    /// An unknown id is never loaded.
    pub proof fn lemma_unknown_not_loaded(&self, id: Seq<char>)
        requires
            self.node(id) is None,
        ensures
            !self.loaded_node(id),
    {
    }

    /// After `add_child` has attached a child to a category node, the node is
    /// loaded.
    pub proof fn lemma_attached_category_loaded(before: Menu, after: Menu, pid: Seq<char>, cid: Seq<char>)
        requires
            before.node(pid) matches Some(p) && is_category(p.id),
            after.node(pid) == Some(with_child(before.node(pid)->0, cid)),
        ensures
            after.loaded_node(pid),
    {
    }

    /// A menu with the schooling root and the groups root, both without children.
    pub fn new(
        language_code: u32,
        schooling_id: String,
        user_planning_id: String,
        groups_planning_id: String,
    ) -> (r: Menu)
        ensures
            r.wf(),
            r@.language_code == language_code,
            r@.schooling_id == schooling_id@,
            r@.user_planning_id == user_planning_id@,
            r@.groups_planning_id == groups_planning_id@,
            r.node(groups_planning_id@) == Some(root_view(groups_planning_id@, "Groups"@)),
            schooling_id@ != groups_planning_id@ ==> r.node(schooling_id@) == Some(
                root_view(schooling_id@, "Schooling"@),
            ),
            forall|k: Seq<char>|
                k != schooling_id@ && k != groups_planning_id@ ==> (#[trigger] r.node(k)) is None,
    {
        let mut menu = Menu {
            language_code,
            schooling_id: schooling_id.clone(),
            user_planning_id,
            groups_planning_id: groups_planning_id.clone(),
            nodes: Vec::new(),
        };
        proof {
            assert(menu@.nodes =~= Seq::<NodeView>::empty());
        }
        let schooling = Node::new(schooling_id, String::from_str("Schooling"), None);
        assert(schooling@.children =~= Seq::<Seq<char>>::empty());
        menu.add_node(schooling);
        let groups = Node::new(groups_planning_id, String::from_str("Groups"), None);
        assert(groups@.children =~= Seq::<Seq<char>>::empty());
        menu.add_node(groups);
        menu
    }

    pub fn language_code(&self) -> (r: u32)
        ensures
            r == self@.language_code,
    {
        self.language_code
    }

    pub fn schooling_id(&self) -> (r: &str)
        ensures
            r@ == self@.schooling_id,
    {
        self.schooling_id.as_str()
    }

    pub fn user_planning_id(&self) -> (r: &str)
        ensures
            r@ == self@.user_planning_id,
    {
        self.user_planning_id.as_str()
    }

    pub fn groups_planning_id(&self) -> (r: &str)
        ensures
            r@ == self@.groups_planning_id,
    {
        self.groups_planning_id.as_str()
    }

    /// Where the node under `id` stands in the index.
    fn position(&self, id: &str) -> (r: Option<usize>)
        requires
            self.wf(),
        ensures
            match r {
                Some(i) => i < self@.nodes.len() && self@.nodes[i as int].id == id@ && self.node(
                    id@,
                ) == Some(self@.nodes[i as int]),
                None => self.node(id@) is None && forall|i: int|
                    0 <= i < self@.nodes.len() ==> self@.nodes[i].id != id@,
            },
    {
        let ghost s = self@.nodes;
        let mut k: usize = self.nodes.len();
        while k > 0
            invariant
                k <= self.nodes@.len(),
                s == self@.nodes,
                unique_ids(s),
                s.len() == self.nodes@.len(),
                forall|i: int| k <= i < s.len() ==> s[i].id != id@,
            decreases k,
        {
            let n = &self.nodes[k - 1];
            let same = String::from_str(id);
            if n.id == same {
                proof {
                    assert(s[k - 1] == self.nodes@[k - 1]@);
                    lemma_lookup_at(s, k - 1);
                }
                return Some(k - 1);
            }
            assert(s[k - 1] == self.nodes@[k - 1]@);
            k -= 1;
        }
        proof {
            lemma_lookup_absent(s, id@);
        }
        None
    }

    /// Registers `node` under its id, in place of any node that had that id.
    pub fn add_node(&mut self, node: Node)
        requires
            old(self).wf(),
        ensures
            final(self).wf(),
            final(self).node(node.id@) == Some(node@),
            forall|k: Seq<char>| k != node.id@ ==> #[trigger] final(self).node(k) == old(self).node(k),
            final(self)@.language_code == old(self)@.language_code,
            final(self)@.schooling_id == old(self)@.schooling_id,
            final(self)@.user_planning_id == old(self)@.user_planning_id,
            final(self)@.groups_planning_id == old(self)@.groups_planning_id,
            final(self)@.nodes.len() <= old(self)@.nodes.len() + 1,
            old(self).node(node.id@) is Some ==> final(self)@.nodes.len() == old(self)@.nodes.len(),
    {
        let ghost s = self@.nodes;
        let ghost v = node@;
        match self.position(node.id.as_str()) {
            Some(i) => {
                self.nodes.set(i, node);
                proof {
                    assert(self@.nodes =~= s.update(i as int, v));
                    lemma_lookup_update(s, i as int, v);
                }
            },
            None => {
                self.nodes.push(node);
                proof {
                    let t = self@.nodes;
                    assert(t =~= s.push(v));
                    assert(t.drop_last() =~= s);
                    assert(unique_ids(t));
                }
            },
        }
    }

    /// Appends `child` to the children of the node at `i`.
    fn push_child_at(&mut self, i: usize, child: String)
        requires
            old(self).wf(),
            i < old(self)@.nodes.len(),
        ensures
            final(self)@.nodes == old(self)@.nodes.update(
                i as int,
                with_child(old(self)@.nodes[i as int], child@),
            ),
            final(self)@.language_code == old(self)@.language_code,
            final(self)@.schooling_id == old(self)@.schooling_id,
            final(self)@.user_planning_id == old(self)@.user_planning_id,
            final(self)@.groups_planning_id == old(self)@.groups_planning_id,
    {
        let ghost s = self@.nodes;
        let mut node = self.nodes.remove(i);
        let ghost c = node.children@;
        node.children.push(child);
        proof {
            assert(node@.children =~= c.map_values(|x: String| x@).push(child@));
        }
        self.nodes.insert(i, node);
        proof {
            assert(self@.nodes =~= s.update(i as int, with_child(s[i as int], child@)));
        }
    }

    /// Whether `id` is among the children of the node at `i`.
    fn has_child(&self, i: usize, id: &String) -> (r: bool)
        requires
            i < self@.nodes.len(),
        ensures
            r == self@.nodes[i as int].children.contains(id@),
    {
        let children = &self.nodes[i].children;
        let ghost views = children@.map_values(|c: String| c@);
        assert(views == self@.nodes[i as int].children);
        assert(self@.nodes.len() == self.nodes@.len());
        let mut j: usize = 0;
        while j < children.len()
            invariant
                j <= children@.len(),
                views == children@.map_values(|c: String| c@),
                i < self@.nodes.len(),
                views == self@.nodes[i as int].children,
                forall|k: int| 0 <= k < j ==> views[k] != id@,
            decreases children.len() - j,
        {
            if children[j] == *id {
                assert(views[j as int] == id@);
                assert(self@.nodes[i as int].children.contains(id@));
                return true;
            }
            j += 1;
        }
        false
    }

    /// Attaches `child` under the node `parent_id`: registers it with that
    /// parent and appends its id to the parent's children. Returns whether it
    /// did; it does not when the parent is unknown, or the child is the parent
    /// itself or already one of its children, and the menu is then unchanged.
    pub fn add_child(&mut self, parent_id: &str, child: Node) -> (r: bool)
        requires
            old(self).wf(),
        ensures
            final(self).wf(),
            r == (old(self).node(parent_id@) matches Some(p) && attachable(p, child.id@)),
            r ==> final(self).node(parent_id@) == Some(
                with_child(old(self).node(parent_id@)->0, child.id@),
            ),
            r ==> final(self).node(child.id@) == Some(with_parent(child@, parent_id@)),
            r ==> forall|k: Seq<char>|
                k != parent_id@ && k != child.id@ ==> #[trigger] final(self).node(k) == old(
                    self,
                ).node(k),
            !r ==> final(self)@ == old(self)@,
            final(self)@.language_code == old(self)@.language_code,
            final(self)@.schooling_id == old(self)@.schooling_id,
            final(self)@.user_planning_id == old(self)@.user_planning_id,
            final(self)@.groups_planning_id == old(self)@.groups_planning_id,
    {
        let i = match self.position(parent_id) {
            Some(i) => i,
            None => return false,
        };
        let pid = String::from_str(parent_id);
        if child.id == pid || self.has_child(i, &child.id) {
            return false;
        }
        let ghost s = self@.nodes;
        let ghost p = s[i as int];
        let ghost cid = child.id@;
        let mut child = child;
        let id = child.id.clone();
        child.parent = Some(pid);
        self.push_child_at(i, id);
        proof {
            lemma_lookup_update(s, i as int, with_child(p, cid));
        }
        self.add_node(child);
        true
    }

    /// The node registered under `menu_id`.
    pub fn get_menu_node(&self, menu_id: &str) -> (r: Option<&Node>)
        requires
            self.wf(),
        ensures
            match r {
                Some(n) => self.node(menu_id@) == Some(n@),
                None => self.node(menu_id@) is None,
            },
    {
        match self.position(menu_id) {
            Some(i) => Some(&self.nodes[i]),
            None => None,
        }
    }

    /// Whether the node under `menu_id` exists and is loaded.
    pub fn is_node_loaded(&self, menu_id: &str) -> (r: bool)
        requires
            self.wf(),
        ensures
            r == self.loaded_node(menu_id@),
    {
        match self.get_menu_node(menu_id) {
            Some(n) => n.is_loaded(),
            None => false,
        }
    }
}

} // verus!
