use vstd::prelude::*;

verus! {

/// What a queryable node answers with. A node without one is a container.
#[derive(Debug, Clone, Copy, PartialEq, Eq, Structural)]
pub enum Handler {
    UserName,
    Language,
    Status,
}

/// Who is responsible for a node's tree.
#[derive(Debug, Clone, Copy, PartialEq, Eq, Structural)]
pub enum NodeState {
    /// Still being built; the plugin owns it.
    Building,
    /// Handed to the host; the plugin may no longer touch it.
    Registered,
    /// Released by the plugin; gone.
    Released,
}

/// Why a tree operation was refused. A refused operation changes nothing.
#[derive(Debug, Clone, Copy, PartialEq, Eq, Structural)]
pub enum TreeError {
    InvalidName,
    UnknownNode,
    NotOwned,
    AlreadyAttached,
    WouldCycle,
    DuplicateName,
    NotRoot,
    DuplicateRoot,
    DoubleRelease,
}

/// One node of the arena. `parent` is a back-reference only; `root` is the
/// top of the tree that holds the node, kept up to date on every attachment.
pub struct ModuleNode {
    pub name: String,
    pub description: String,
    pub handler: Option<Handler>,
    pub parent: Option<usize>,
    pub children: Vec<usize>,
    pub root: usize,
    pub state: NodeState,
}

/// Non-empty and printable ASCII.
pub open spec fn valid_name(s: Seq<char>) -> bool {
    s.len() > 0 && forall|i: int| 0 <= i < s.len() ==> ' ' <= #[trigger] s[i] <= '~'
}

/// Checks `valid_name`.
pub fn is_valid_name(s: &str) -> (r: bool)
    ensures
        r == valid_name(s@),
{
    let n = s.unicode_len();
    if n == 0 {
        return false;
    }
    let mut i: usize = 0;
    while i < n
        invariant
            n == s@.len(),
            i <= n,
            forall|j: int| 0 <= j < i ==> ' ' <= #[trigger] s@[j] <= '~',
        decreases n - i,
    {
        let ch = s.get_char(i);
        if ch < ' ' || ch > '~' {
            return false;
        }
        i += 1;
    }
    true
}

/// The arena of every node created through the host, and the roots that
/// the host has accepted.
pub struct ModuleTree {
    pub nodes: Vec<ModuleNode>,
    pub registered: Vec<usize>,
}

impl ModuleTree {
    pub open spec fn len(&self) -> nat {
        self.nodes@.len()
    }

    pub open spec fn node(&self, i: int) -> ModuleNode {
        self.nodes@[i]
    }

    /// Node `i`'s links, seen from the node.
    pub open spec fn node_wf(&self, i: int) -> bool {
        let nd = self.node(i);
        &&& 0 <= nd.root < self.len()
        &&& self.node(nd.root as int).parent is None
        &&& self.node(nd.root as int).state == nd.state
        &&& (nd.parent is None <==> nd.root == i)
        &&& (nd.parent matches Some(p) ==> {
            &&& p < self.len()
            &&& self.node(p as int).root == nd.root
            &&& self.node(p as int).children@.contains(i as usize)
        })
        &&& forall|j: int| 0 <= j < nd.children@.len() ==> {
            &&& #[trigger] nd.children@[j] < self.len()
            &&& self.node(nd.children@[j] as int).parent == Some(i as usize)
        }
        &&& forall|j: int, k: int| 0 <= j < k < nd.children@.len() ==>
            self.node(#[trigger] nd.children@[j] as int).name@
                != self.node(#[trigger] nd.children@[k] as int).name@
    }

    /// The arena's invariant: parent and child links agree, every node's
    /// root is the parentless top of its tree, a whole tree shares one
    /// state, sibling names are distinct, and every registered entry is a
    /// registered root.
    pub open spec fn wf(&self) -> bool {
        &&& forall|i: int| 0 <= i < self.len() ==> #[trigger] self.node_wf(i)
        &&& forall|k: int| 0 <= k < self.registered@.len() ==> {
            &&& #[trigger] self.registered@[k] < self.len()
            &&& self.node(self.registered@[k] as int).parent is None
            &&& self.node(self.registered@[k] as int).state == NodeState::Registered
        }
    }

    /// Whether some child of `p` is named `name`.
    pub open spec fn has_child_named(&self, p: int, name: Seq<char>) -> bool {
        exists|j: int|
            0 <= j < self.node(p).children@.len() && self.node(
                #[trigger] self.node(p).children@[j] as int,
            ).name@ == name
    }

    /// Whether a registered root is named `name`.
    pub open spec fn has_root_named(&self, name: Seq<char>) -> bool {
        exists|k: int|
            0 <= k < self.registered@.len() && self.node(#[trigger] self.registered@[k] as int).name@
                == name
    }

    /// Why attaching `c` under `p` is refused, if it is: the checks in the
    /// order in which they are made.
    pub open spec fn attach_error(&self, p: int, c: int) -> Option<TreeError> {
        if !(0 <= p < self.len() && 0 <= c < self.len()) {
            Some(TreeError::UnknownNode)
        } else if self.node(p).state != NodeState::Building || self.node(c).state
            != NodeState::Building {
            Some(TreeError::NotOwned)
        } else if self.node(c).parent is Some {
            Some(TreeError::AlreadyAttached)
        } else if self.node(p).root == c {
            Some(TreeError::WouldCycle)
        } else if self.has_child_named(p, self.node(c).name@) {
            Some(TreeError::DuplicateName)
        } else {
            None
        }
    }

    /// Why handing the tree at `r` to the host is refused, if it is.
    pub open spec fn register_error(&self, r: int) -> Option<TreeError> {
        if !(0 <= r < self.len()) {
            Some(TreeError::UnknownNode)
        } else if self.node(r).parent is Some {
            Some(TreeError::NotRoot)
        } else if self.node(r).state != NodeState::Building {
            Some(TreeError::NotOwned)
        } else if self.has_root_named(self.node(r).name@) {
            Some(TreeError::DuplicateRoot)
        } else {
            None
        }
    }

    /// Why releasing the tree at `r` is refused, if it is.
    pub open spec fn release_error(&self, r: int) -> Option<TreeError> {
        if !(0 <= r < self.len()) {
            Some(TreeError::UnknownNode)
        } else if self.node(r).parent is Some {
            Some(TreeError::NotRoot)
        } else if self.node(r).state == NodeState::Registered {
            Some(TreeError::NotOwned)
        } else if self.node(r).state == NodeState::Released {
            Some(TreeError::DoubleRelease)
        } else {
            None
        }
    }

    /// `self` is `old` with every node of the tree at `r` put in state `s`.
    pub open spec fn tree_state_set(&self, old: &ModuleTree, r: int, s: NodeState) -> bool {
        &&& self.same_content(old)
        &&& forall|i: int| 0 <= i < self.len() ==> {
            &&& (#[trigger] self.node(i)).parent == old.node(i).parent
            &&& self.node(i).children@ == old.node(i).children@
            &&& self.node(i).root == old.node(i).root
            &&& self.node(i).state == (if old.node(i).root == r {
                s
            } else {
                old.node(i).state
            })
        }
    }

    /// Names, descriptions and handlers stay as they were.
    pub open spec fn same_content(&self, other: &ModuleTree) -> bool {
        &&& self.len() == other.len()
        &&& forall|i: int|
            0 <= i < self.len() ==> {
                &&& (#[trigger] self.node(i)).name@ == other.node(i).name@
                &&& self.node(i).description@ == other.node(i).description@
                &&& self.node(i).handler == other.node(i).handler
            }
    }

    pub fn new() -> (r: ModuleTree)
        ensures
            r.wf(),
            r.len() == 0,
            r.registered@.len() == 0,
    {
        ModuleTree { nodes: Vec::new(), registered: Vec::new() }
    }
    /// Creates a parentless node that the plugin owns. Fails only on a name
    /// that is empty or not printable ASCII.
    pub fn create_node(&mut self, name: &str, description: &str, handler: Option<Handler>) -> (r:
        Result<usize, TreeError>)
        requires
            old(self).wf(),
        ensures
            final(self).wf(),
            !valid_name(name@) ==> r == Err::<usize, TreeError>(TreeError::InvalidName),
            !valid_name(name@) ==> *final(self) == *old(self),
            valid_name(name@) ==> r == Ok::<usize, TreeError>(old(self).len() as usize),
            valid_name(name@) ==> {
                &&& final(self).len() == old(self).len() + 1
                &&& final(self).nodes@.drop_last() == old(self).nodes@
                &&& final(self).registered == old(self).registered
                &&& final(self).node(old(self).len() as int).name@ == name@
                &&& final(self).node(old(self).len() as int).description@ == description@
                &&& final(self).node(old(self).len() as int).handler == handler
                &&& final(self).node(old(self).len() as int).parent is None
                &&& final(self).node(old(self).len() as int).children@.len() == 0
                &&& final(self).node(old(self).len() as int).state == NodeState::Building
            },
    {
        if !is_valid_name(name) {
            return Err(TreeError::InvalidName);
        }
        let id = self.nodes.len();
        let nd = ModuleNode {
            name: String::from_str(name),
            description: String::from_str(description),
            handler,
            parent: None,
            children: Vec::new(),
            root: id,
            state: NodeState::Building,
        };
        self.nodes.push(nd);
        proof {
            assert(final(self).nodes@.drop_last() =~= old(self).nodes@);
            assert forall|i: int| 0 <= i < final(self).len() implies #[trigger] final(self).node_wf(i) by {
                if i < id {
                    assert(old(self).node_wf(i));
                }
            }
            assert forall|k: int| 0 <= k < final(self).registered@.len() implies
                #[trigger] final(self).registered@[k] < final(self).len() by {}
        }
        Ok(id)
    }

    /// Whether some child of `p` is named `name`.
    fn child_named(&self, p: usize, name: &String) -> (r: bool)
        requires
            self.wf(),
            p < self.len(),
        ensures
            r == self.has_child_named(p as int, name@),
    {
        proof {
            assert(self.node_wf(p as int));
        }
        let mut j: usize = 0;
        while j < self.nodes[p].children.len()
            invariant
                self.wf(),
                p < self.len(),
                j <= self.node(p as int).children@.len(),
                forall|jj: int| 0 <= jj < j ==> self.node(
                    #[trigger] self.node(p as int).children@[jj] as int,
                ).name@ != name@,
            decreases self.node(p as int).children@.len() - j,
        {
            let ch = self.nodes[p].children[j];
            proof {
                assert(self.node_wf(p as int));
            }
            if self.nodes[ch].name == *name {
                return true;
            }
            j += 1;
        }
        false
    }

    /// Attaches `c` as the last child of `p`. Refused, with nothing changed,
    /// when either node is unknown or no longer the plugin's, when `c`
    /// already has a parent, when `c` is the top of `p`'s tree (a cycle), or
    /// when `p` already has a child of `c`'s name.
    pub fn add_child(&mut self, p: usize, c: usize) -> (r: Result<(), TreeError>)
        requires
            old(self).wf(),
        ensures
            final(self).wf(),
            old(self).attach_error(p as int, c as int) matches Some(e) ==> r == Err::<(), TreeError>(e)
                && *final(self) == *old(self),
            old(self).attach_error(p as int, c as int) is None ==> {
                &&& r is Ok
                &&& final(self).same_content(old(self))
                &&& final(self).registered == old(self).registered
                &&& final(self).node(c as int).parent == Some(p)
                &&& final(self).node(p as int).children@ == old(self).node(p as int).children@.push(c)
                &&& forall|i: int| 0 <= i < final(self).len() ==> {
                    &&& (i != c ==> (#[trigger] final(self).node(i)).parent == old(self).node(i).parent)
                    &&& (i != p ==> final(self).node(i).children@ == old(self).node(i).children@)
                    &&& final(self).node(i).state == old(self).node(i).state
                    &&& final(self).node(i).root == (if old(self).node(i).root == c {
                        old(self).node(p as int).root
                    } else {
                        old(self).node(i).root
                    })
                }
            },
    {
        if p >= self.nodes.len() || c >= self.nodes.len() {
            return Err(TreeError::UnknownNode);
        }
        if self.nodes[p].state != NodeState::Building || self.nodes[c].state != NodeState::Building {
            return Err(TreeError::NotOwned);
        }
        if self.nodes[c].parent.is_some() {
            return Err(TreeError::AlreadyAttached);
        }
        if self.nodes[p].root == c {
            return Err(TreeError::WouldCycle);
        }
        if self.child_named(p, &self.nodes[c].name) {
            return Err(TreeError::DuplicateName);
        }
        let rp = self.nodes[p].root;
        proof {
            assert(old(self).node_wf(p as int));
            assert(old(self).node_wf(c as int));
            assert(old(self).node_wf(rp as int));
        }
        self.nodes[c].parent = Some(p);
        self.nodes[p].children.push(c);
        let ghost mid = self.nodes@;
        let mut i: usize = 0;
        while i < self.nodes.len()
            invariant
                self.nodes@.len() == mid.len(),
                self.registered == old(self).registered,
                i <= mid.len(),
                forall|j: int| 0 <= j < mid.len() ==> {
                    &&& (#[trigger] self.nodes@[j]).name == mid[j].name
                    &&& self.nodes@[j].description == mid[j].description
                    &&& self.nodes@[j].handler == mid[j].handler
                    &&& self.nodes@[j].parent == mid[j].parent
                    &&& self.nodes@[j].children == mid[j].children
                    &&& self.nodes@[j].state == mid[j].state
                    &&& self.nodes@[j].root == (if j < i && mid[j].root == c {
                        rp
                    } else {
                        mid[j].root
                    })
                },
            decreases mid.len() - i,
        {
            if self.nodes[i].root == c {
                self.nodes[i].root = rp;
            }
            i += 1;
        }
        proof {
            let o = old(self);
            let f = *final(self);
            assert forall|i: int| 0 <= i < f.len() implies #[trigger] f.node_wf(i) by {
                assert(o.node_wf(i));
                assert(o.node_wf(o.node(i).root as int));
                if let Some(q) = o.node(i).parent {
                    assert(o.node_wf(q as int));
                    assert(f.node(q as int).children@.contains(i as usize)) by {
                        let w = choose|w: int| 0 <= w < o.node(q as int).children@.len()
                            && o.node(q as int).children@[w] == i as usize;
                        assert(f.node(q as int).children@[w] == i as usize);
                    }
                }
                if i == c as int {
                    assert(f.node(p as int).children@.last() == c);
                    assert(f.node(p as int).children@.contains(c));
                }
                assert forall|j: int| 0 <= j < f.node(i).children@.len() implies {
                    &&& #[trigger] f.node(i).children@[j] < f.len()
                    &&& f.node(f.node(i).children@[j] as int).parent == Some(i as usize)
                } by {
                    if i != p as int || j < o.node(i).children@.len() {
                        assert(f.node(i).children@[j] == o.node(i).children@[j]);
                    }
                }
                assert forall|j: int, k: int| 0 <= j < k < f.node(i).children@.len() implies
                    f.node(#[trigger] f.node(i).children@[j] as int).name@
                        != f.node(#[trigger] f.node(i).children@[k] as int).name@ by {
                    assert(f.node(i).children@[j] == o.node(i).children@[j]);
                    if i != p as int || k < o.node(i).children@.len() {
                        assert(f.node(i).children@[k] == o.node(i).children@[k]);
                    }
                }
            }
            assert forall|k: int| 0 <= k < f.registered@.len() implies {
                &&& #[trigger] f.registered@[k] < f.len()
                &&& f.node(f.registered@[k] as int).parent is None
                &&& f.node(f.registered@[k] as int).state == NodeState::Registered
            } by {
                assert(o.node_wf(o.registered@[k] as int));
            }
        }
        Ok(())
    }

    /// Puts every node of the tree at root `r` in state `s`.
    fn set_tree_state(&mut self, r: usize, s: NodeState)
        requires
            old(self).wf(),
            r < old(self).len(),
            old(self).node(r as int).parent is None,
            s == NodeState::Registered || old(self).node(r as int).state != NodeState::Registered,
        ensures
            final(self).wf(),
            final(self).registered == old(self).registered,
            final(self).tree_state_set(old(self), r as int, s),
    {
        let mut i: usize = 0;
        while i < self.nodes.len()
            invariant
                self.nodes@.len() == old(self).nodes@.len(),
                self.registered == old(self).registered,
                i <= self.nodes@.len(),
                forall|j: int| 0 <= j < self.nodes@.len() ==> {
                    &&& (#[trigger] self.nodes@[j]).name == old(self).nodes@[j].name
                    &&& self.nodes@[j].description == old(self).nodes@[j].description
                    &&& self.nodes@[j].handler == old(self).nodes@[j].handler
                    &&& self.nodes@[j].parent == old(self).nodes@[j].parent
                    &&& self.nodes@[j].children == old(self).nodes@[j].children
                    &&& self.nodes@[j].root == old(self).nodes@[j].root
                    &&& self.nodes@[j].state == (if j < i && old(self).nodes@[j].root == r {
                        s
                    } else {
                        old(self).nodes@[j].state
                    })
                },
            decreases self.nodes@.len() - i,
        {
            if self.nodes[i].root == r {
                self.nodes[i].state = s;
            }
            i += 1;
        }
        proof {
            let o = old(self);
            let f = *final(self);
            assert(o.node_wf(r as int));
            assert forall|i: int| 0 <= i < f.len() implies #[trigger] f.node_wf(i) by {
                assert(o.node_wf(i));
                assert(o.node_wf(o.node(i).root as int));
                if let Some(q) = o.node(i).parent {
                    assert(o.node_wf(q as int));
                }
            }
            assert forall|k: int| 0 <= k < f.registered@.len() implies {
                &&& #[trigger] f.registered@[k] < f.len()
                &&& f.node(f.registered@[k] as int).parent is None
                &&& f.node(f.registered@[k] as int).state == NodeState::Registered
            } by {
                assert(o.node_wf(o.registered@[k] as int));
            }
        }
    }

    /// Whether a registered root is named `name`.
    fn root_named(&self, name: &String) -> (r: bool)
        requires
            self.wf(),
        ensures
            r == self.has_root_named(name@),
    {
        let mut k: usize = 0;
        while k < self.registered.len()
            invariant
                self.wf(),
                k <= self.registered@.len(),
                forall|kk: int| 0 <= kk < k ==> self.node(
                    #[trigger] self.registered@[kk] as int,
                ).name@ != name@,
            decreases self.registered@.len() - k,
        {
            let x = self.registered[k];
            if self.nodes[x].name == *name {
                return true;
            }
            k += 1;
        }
        false
    }

    /// Hands the tree at `r` to the host. Refused, with nothing changed, when
    /// `r` is unknown, has a parent, is no longer the plugin's, or shares its
    /// name with a root already registered. On success every node of the tree
    /// is the host's.
    pub fn register_tree(&mut self, r: usize) -> (res: Result<(), TreeError>)
        requires
            old(self).wf(),
        ensures
            final(self).wf(),
            old(self).register_error(r as int) matches Some(e) ==> res == Err::<(), TreeError>(e)
                && *final(self) == *old(self),
            old(self).register_error(r as int) is None ==> {
                &&& res is Ok
                &&& final(self).registered@ == old(self).registered@.push(r)
                &&& final(self).tree_state_set(old(self), r as int, NodeState::Registered)
            },
    {
        if r >= self.nodes.len() {
            return Err(TreeError::UnknownNode);
        }
        if self.nodes[r].parent.is_some() {
            return Err(TreeError::NotRoot);
        }
        if self.nodes[r].state != NodeState::Building {
            return Err(TreeError::NotOwned);
        }
        if self.root_named(&self.nodes[r].name) {
            return Err(TreeError::DuplicateRoot);
        }
        self.set_tree_state(r, NodeState::Registered);
        let ghost mid = *self;
        proof {
            assert(old(self).node_wf(r as int));
        }
        self.registered.push(r);
        proof {
            let f = *final(self);
            assert(f.nodes@ == mid.nodes@);
            assert(mid.node(r as int).state == NodeState::Registered);
            assert(f.tree_state_set(old(self), r as int, NodeState::Registered)) by {
                assert forall|i: int| 0 <= i < f.len() implies #[trigger] f.node(i) == mid.node(i) by {}
            }
            assert forall|i: int| 0 <= i < f.len() implies #[trigger] f.node_wf(i) by {
                assert(mid.node_wf(i));
            }
            assert forall|k: int| 0 <= k < f.registered@.len() implies {
                &&& #[trigger] f.registered@[k] < f.len()
                &&& f.node(f.registered@[k] as int).parent is None
                &&& f.node(f.registered@[k] as int).state == NodeState::Registered
            } by {
                if k < mid.registered@.len() {
                    assert(f.registered@[k] == mid.registered@[k]);
                }
            }
        }
        Ok(())
    }

    /// Releases the tree at `r`, which the plugin still owns. Refused, with
    /// nothing changed, when `r` is unknown, has a parent, was handed to the
    /// host, or was released already.
    pub fn release_tree(&mut self, r: usize) -> (res: Result<(), TreeError>)
        requires
            old(self).wf(),
        ensures
            final(self).wf(),
            old(self).release_error(r as int) matches Some(e) ==> res == Err::<(), TreeError>(e)
                && *final(self) == *old(self),
            old(self).release_error(r as int) is None ==> {
                &&& res is Ok
                &&& final(self).registered == old(self).registered
                &&& final(self).tree_state_set(old(self), r as int, NodeState::Released)
            },
    {
        if r >= self.nodes.len() {
            return Err(TreeError::UnknownNode);
        }
        if self.nodes[r].parent.is_some() {
            return Err(TreeError::NotRoot);
        }
        if self.nodes[r].state == NodeState::Registered {
            return Err(TreeError::NotOwned);
        }
        if self.nodes[r].state == NodeState::Released {
            return Err(TreeError::DoubleRelease);
        }
        self.set_tree_state(r, NodeState::Released);
        Ok(())
    }

    /// Name of node `i`.
    pub fn name(&self, i: usize) -> (r: &String)
        requires
            i < self.len(),
        ensures
            r@ == self.node(i as int).name@,
    {
        &self.nodes[i].name
    }

    /// Description of node `i`.
    pub fn description(&self, i: usize) -> (r: &String)
        requires
            i < self.len(),
        ensures
            r@ == self.node(i as int).description@,
    {
        &self.nodes[i].description
    }

    /// Handler of node `i`; `None` marks a container.
    pub fn handler(&self, i: usize) -> (r: Option<Handler>)
        requires
            i < self.len(),
        ensures
            r == self.node(i as int).handler,
    {
        self.nodes[i].handler
    }

    /// Parent of node `i`.
    pub fn parent(&self, i: usize) -> (r: Option<usize>)
        requires
            i < self.len(),
        ensures
            r == self.node(i as int).parent,
    {
        self.nodes[i].parent
    }

    /// Children of node `i`, in the order they were attached.
    pub fn children(&self, i: usize) -> (r: &Vec<usize>)
        requires
            i < self.len(),
        ensures
            r@ == self.node(i as int).children@,
    {
        &self.nodes[i].children
    }

    /// State of node `i`'s tree.
    pub fn state(&self, i: usize) -> (r: NodeState)
        requires
            i < self.len(),
        ensures
            r == self.node(i as int).state,
    {
        self.nodes[i].state
    }
}

/// Attaching a node under a parent that already has a child of the same
/// name is refused; by `add_child`'s contract a refusal changes neither node.
pub proof fn lemma_duplicate_sibling_refused(t: ModuleTree, p: int, c: int)
    requires
        0 <= p < t.len(),
        0 <= c < t.len(),
        t.has_child_named(p, t.node(c).name@),
    ensures
        t.attach_error(p, c) is Some,
{
}

/// Attaching a node that already has a parent is refused, so (by
/// `add_child`'s contract) it stays under its original parent.
pub proof fn lemma_attached_node_refused(t: ModuleTree, p: int, c: int)
    requires
        0 <= c < t.len(),
        t.node(c).parent is Some,
    ensures
        t.attach_error(p, c) is Some,
{
}

} // verus!
