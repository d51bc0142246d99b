use vstd::prelude::*;

verus! {

/// A node of the first view's scene. `P` is where it stands, `Z` its size.
pub struct Node<P, Z> {
    pub id: i32,
    pub kind: i32,
    pub position: P,
    pub size: Z,
    pub text: String,
}

/// Whether the nodes of `s` have pairwise distinct ids.
pub open spec fn ids_distinct<P, Z>(s: Seq<Node<P, Z>>) -> bool {
    forall|i: int, j: int| 0 <= i < j < s.len() ==> s[i].id != s[j].id
}

/// Whether a node of `s` has the id `id`.
pub open spec fn has_id<P, Z>(s: Seq<Node<P, Z>>, id: i32) -> bool {
    exists|i: int| 0 <= i < s.len() && s[i].id == id
}

/// The scene after `node` is placed in `s`: a node with the same id takes the
/// new size and keeps all else; otherwise the node is added at the end.
pub open spec fn upsert_spec<P, Z>(s: Seq<Node<P, Z>>, node: Node<P, Z>) -> Seq<Node<P, Z>> {
    if has_id(s, node.id) {
        let i = choose|i: int| 0 <= i < s.len() && s[i].id == node.id;
        let o = s[i];
        s.update(
            i,
            Node { id: o.id, kind: o.kind, position: o.position, size: node.size, text: o.text },
        )
    } else {
        s.push(node)
    }
}

/// The nodes of the first view, at most one for each id.
pub struct Scene<P, Z> {
    nodes: Vec<Node<P, Z>>,
}

impl<P, Z> View for Scene<P, Z> {
    type V = Seq<Node<P, Z>>;

    closed spec fn view(&self) -> Seq<Node<P, Z>> {
        self.nodes@
    }
}

impl<P, Z> Scene<P, Z> {
    #[verifier::type_invariant]
    spec fn one_node_per_id(self) -> bool {
        ids_distinct(self.nodes@)
    }
}

impl<P: Copy, Z> Scene<P, Z> {
    /// An empty scene.
    pub fn new() -> (r: Self)
        ensures
            r@ == Seq::<Node<P, Z>>::empty(),
    {
        Scene { nodes: Vec::new() }
    }

    /// The nodes in the order in which they arrived.
    pub fn nodes(&self) -> (r: &Vec<Node<P, Z>>)
        ensures
            r@ == self@,
            ids_distinct(self@),
    {
        proof {
            use_type_invariant(self);
        }
        &self.nodes
    }

    /// Saves `node`, or gives the node with its id the new size; returns
    /// whether such a node was there.
    pub fn upsert(&mut self, node: Node<P, Z>) -> (found: bool)
        ensures
            ids_distinct(old(self)@),
            ids_distinct(final(self)@),
            found == has_id(old(self)@, node.id),
            final(self)@ == upsert_spec(old(self)@, node),
    {
        proof {
            use_type_invariant(&*self);
        }
        let mut nodes: Vec<Node<P, Z>> = Vec::new();
        std::mem::swap(&mut nodes, &mut self.nodes);
        let n = nodes.len();
        let mut i: usize = 0;
        while i < n
            invariant
                n == nodes@.len(),
                nodes@ == old(self)@,
                ids_distinct(nodes@),
                i <= n,
                forall|k: int| 0 <= k < i ==> nodes@[k].id != node.id,
            decreases n - i,
        {
            if nodes[i].id == node.id {
                let ghost s = nodes@;
                proof {
                    let c = choose|c: int| 0 <= c < s.len() && s[c].id == node.id;
                    assert(0 <= c < s.len() && s[c].id == node.id);
                    if c > i {
                        assert(s[i as int].id != s[c].id);
                    }
                }
                let o = &nodes[i];
                let updated = Node {
                    id: o.id,
                    kind: o.kind,
                    position: o.position,
                    size: node.size,
                    text: o.text.clone(),
                };
                nodes.set(i, updated);
                proof {
                    assert forall|a: int, b: int| 0 <= a < b < nodes@.len() implies nodes@[a].id
                        != nodes@[b].id by {
                        assert(s[a].id != s[b].id);
                    }
                }
                self.nodes = nodes;
                return true;
            }
            i = i + 1;
        }
        let ghost s = nodes@;
        nodes.push(node);
        proof {
            assert forall|a: int, b: int| 0 <= a < b < nodes@.len() implies nodes@[a].id
                != nodes@[b].id by {
                if b < s.len() {
                    assert(s[a].id != s[b].id);
                }
            }
        }
        self.nodes = nodes;
        false
    }
}

/// Placing a node whose id is in the scene changes only the node with that
/// id: the scene keeps its length, that node takes the new size and keeps its
/// kind, position and text, and every node with another id is exactly as it
/// was. Placing a node whose id is new appends it and changes nothing else.
pub proof fn law_upsert_touches_only_its_id<P, Z>(s: Seq<Node<P, Z>>, node: Node<P, Z>)
    requires
        ids_distinct(s),
    ensures
        has_id(s, node.id) ==> {
            let r = upsert_spec(s, node);
            &&& r.len() == s.len()
            &&& forall|k: int|
                0 <= k < s.len() ==> if s[k].id == node.id {
                    &&& r[k].id == node.id
                    &&& r[k].size == node.size
                    &&& r[k].kind == s[k].kind
                    &&& r[k].position == s[k].position
                    &&& r[k].text == s[k].text
                } else {
                    r[k] == s[k]
                }
        },
        !has_id(s, node.id) ==> upsert_spec(s, node).len() == s.len() + 1 && (forall|k: int|
            0 <= k < s.len() ==> upsert_spec(s, node)[k] == s[k]) && upsert_spec(s, node)[s.len()
            as int] == node,
{
    if has_id(s, node.id) {
        let c = choose|c: int| 0 <= c < s.len() && s[c].id == node.id;
        assert forall|k: int| 0 <= k < s.len() && s[k].id == node.id implies k == c by {
            if k < c {
                assert(s[k].id != s[c].id);
            } else if k > c {
                assert(s[c].id != s[k].id);
            }
        }
    }
}

} // verus!
