use vstd::prelude::*;
use crate::json::{Field, RequestError, field, json_lookup};
use crate::number::{parse_i32, parse_i32_spec};

verus! {

/// The kind of node that is drawn with a texture.
pub const TEXTURED_KIND: i32 = 1160;

/// A node of the scene. `G` is its geometry: where it stands and how large
/// it is.
pub struct Node<G> {
    pub id: i32,
    pub kind: i32,
    pub geometry: G,
    pub text: String,
    pub textureid: usize,
}

/// The integer fields of a request to the view, and its text.
pub struct NodeHeader {
    pub id: i32,
    pub kind: i32,
    pub text: String,
}

/// What the view reads from the request `args`: its `id` and `kind`, each
/// the JSON text of the field read as an `i32`, and the JSON text of its
/// `text` field; refused where the request is no JSON or one of the two
/// numbers cannot be read.
pub open spec fn header_spec(args: Seq<char>) -> Result<(i32, i32, Seq<char>), RequestError> {
    match json_lookup(args, "id"@) {
        None => Err(RequestError::InvalidJson),
        Some((_, id_text)) => match parse_i32_spec(id_text) {
            None => Err(RequestError::BadField(Field::Id)),
            Some(id) => match json_lookup(args, "kind"@) {
                None => Err(RequestError::InvalidJson),
                Some((_, kind_text)) => match parse_i32_spec(kind_text) {
                    None => Err(RequestError::BadField(Field::Kind)),
                    Some(kind) => match json_lookup(args, "text"@) {
                        None => Err(RequestError::InvalidJson),
                        Some((_, text)) => Ok((id, kind, text)),
                    },
                },
            },
        },
    }
}

fn int_field_of(args: &str, key: &str, which: Field) -> (r: Result<i32, RequestError>)
    ensures
        match json_lookup(args@, key@) {
            None => r == Err::<i32, RequestError>(RequestError::InvalidJson),
            Some((_, t)) => match parse_i32_spec(t) {
                None => r == Err::<i32, RequestError>(RequestError::BadField(which)),
                Some(v) => r == Ok::<i32, RequestError>(v),
            },
        },
{
    let f = field(args, key)?;
    match parse_i32(f.text.as_str()) {
        Some(v) => Ok(v),
        None => Err(RequestError::BadField(which)),
    }
}

/// Reads the id, kind and text of a request to the view.
pub fn node_header(args: &str) -> (r: Result<NodeHeader, RequestError>)
    ensures
        match header_spec(args@) {
            Ok((id, kind, text)) => r matches Ok(h) && h.id == id && h.kind == kind && h.text@
                == text,
            Err(e) => r matches Err(e2) && e2 == e,
        },
{
    let id = int_field_of(args, "id", Field::Id)?;
    let kind = int_field_of(args, "kind", Field::Kind)?;
    let text = field(args, "text")?.text;
    Ok(NodeHeader { id, kind, text })
}

/// Where a node went.
#[derive(Clone, Copy, Debug, PartialEq, Eq, Structural)]
pub enum Placement {
    /// A node with its id was there; its geometry was replaced.
    Updated,
    /// It was added.
    Added,
    /// It was added, and its texture is to be loaded as texture 0.
    AddedWithTexture,
}

/// Whether the nodes of `s` have pairwise distinct ids.
pub open spec fn ids_distinct<G>(s: Seq<Node<G>>) -> bool {
    forall|i: int, j: int| 0 <= i < j < s.len() ==> s[i].id != s[j].id
}

/// Whether a node of `s` has the id `id`.
pub open spec fn has_id<G>(s: Seq<Node<G>>, id: i32) -> bool {
    exists|i: int| 0 <= i < s.len() && s[i].id == id
}

/// The scene after `node` is placed in `s` while `textures` textures are
/// loaded: a node with the same id keeps its kind, text and texture and takes
/// the new geometry; otherwise the node is added at the end, and a textured
/// node that arrives while no texture is loaded gets texture 0.
pub open spec fn upsert_spec<G>(s: Seq<Node<G>>, node: Node<G>, textures: usize) -> (
    Seq<Node<G>>,
    Placement,
) {
    if has_id(s, node.id) {
        let i = choose|i: int| 0 <= i < s.len() && s[i].id == node.id;
        let o = s[i];
        (
            s.update(
                i,
                Node {
                    id: o.id,
                    kind: o.kind,
                    geometry: node.geometry,
                    text: o.text,
                    textureid: o.textureid,
                },
            ),
            Placement::Updated,
        )
    } else if node.kind == TEXTURED_KIND && textures == 0 {
        (
            s.push(
                Node {
                    id: node.id,
                    kind: node.kind,
                    geometry: node.geometry,
                    text: node.text,
                    textureid: 0,
                },
            ),
            Placement::AddedWithTexture,
        )
    } else {
        (s.push(node), Placement::Added)
    }
}

/// The nodes that the view draws, at most one for each id.
pub struct Scene<G> {
    nodes: Vec<Node<G>>,
}

impl<G> View for Scene<G> {
    type V = Seq<Node<G>>;

    closed spec fn view(&self) -> Seq<Node<G>> {
        self.nodes@
    }
}

impl<G> Scene<G> {
    #[verifier::type_invariant]
    spec fn one_node_per_id(self) -> bool {
        ids_distinct(self.nodes@)
    }

    /// An empty scene.
    pub fn new() -> (r: Self)
        ensures
            r@ == Seq::<Node<G>>::empty(),
    {
        Scene { nodes: Vec::new() }
    }

    /// The nodes in the order in which they arrived.
    pub fn nodes(&self) -> (r: &Vec<Node<G>>)
        ensures
            r@ == self@,
            ids_distinct(self@),
    {
        proof {
            use_type_invariant(self);
        }
        &self.nodes
    }

    /// Saves or updates `node`, while `textures` textures are loaded.
    pub fn upsert(&mut self, node: Node<G>, textures: usize) -> (r: Placement)
        ensures
            ids_distinct(old(self)@),
            ids_distinct(final(self)@),
            (final(self)@, r) == upsert_spec(old(self)@, node, textures),
    {
        proof {
            use_type_invariant(&*self);
        }
        let mut nodes: Vec<Node<G>> = Vec::new();
        std::mem::swap(&mut nodes, &mut self.nodes);
        let n = nodes.len();
        let mut i: usize = 0;
        while i < n
            invariant
                n == nodes@.len(),
                nodes@ == old(self)@,
                ids_distinct(nodes@),
                i <= n,
                forall|k: int| 0 <= k < i ==> nodes@[k].id != node.id,
            decreases n - i,
        {
            if nodes[i].id == node.id {
                let ghost s = nodes@;
                proof {
                    let c = choose|c: int| 0 <= c < s.len() && s[c].id == node.id;
                    assert(0 <= c < s.len() && s[c].id == node.id);
                    if c > i {
                        assert(s[i as int].id != s[c].id);
                    }
                }
                let o = &nodes[i];
                let updated = Node {
                    id: o.id,
                    kind: o.kind,
                    geometry: node.geometry,
                    text: o.text.clone(),
                    textureid: o.textureid,
                };
                nodes.set(i, updated);
                proof {
                    assert forall|a: int, b: int| 0 <= a < b < nodes@.len() implies nodes@[a].id
                        != nodes@[b].id by {
                        assert(s[a].id != s[b].id);
                    }
                }
                self.nodes = nodes;
                return Placement::Updated;
            }
            i = i + 1;
        }
        let ghost s = nodes@;
        let placement = if node.kind == TEXTURED_KIND && textures == 0 {
            let added = Node {
                id: node.id,
                kind: node.kind,
                geometry: node.geometry,
                text: node.text,
                textureid: 0,
            };
            nodes.push(added);
            Placement::AddedWithTexture
        } else {
            nodes.push(node);
            Placement::Added
        };
        proof {
            assert forall|a: int, b: int| 0 <= a < b < nodes@.len() implies nodes@[a].id
                != nodes@[b].id by {
                if b < s.len() {
                    assert(s[a].id != s[b].id);
                }
            }
        }
        self.nodes = nodes;
        placement
    }
}

/// The scene keeps one node for each id: placing a node in a scene whose ids
/// are distinct leaves them distinct, and afterwards exactly one node has the
/// placed id, and it has the placed geometry.
pub proof fn law_one_node_per_id<G>(s: Seq<Node<G>>, node: Node<G>, textures: usize)
    requires
        ids_distinct(s),
    ensures
        ids_distinct(upsert_spec(s, node, textures).0),
        has_id(upsert_spec(s, node, textures).0, node.id),
        forall|i: int|
            0 <= i < upsert_spec(s, node, textures).0.len() && #[trigger] upsert_spec(
                s,
                node,
                textures,
            ).0[i].id == node.id ==> upsert_spec(s, node, textures).0[i].geometry
                == node.geometry,
{
    let t = upsert_spec(s, node, textures).0;
    if has_id(s, node.id) {
        let c = choose|c: int| 0 <= c < s.len() && s[c].id == node.id;
        assert(t[c].id == node.id);
        assert forall|a: int, b: int| 0 <= a < b < t.len() implies t[a].id != t[b].id by {
            assert(s[a].id != s[b].id);
        }
        assert forall|i: int| 0 <= i < t.len() && #[trigger] t[i].id == node.id implies t[i].geometry
            == node.geometry by {
            if i != c {
                if i < c {
                    assert(s[i].id != s[c].id);
                } else {
                    assert(s[c].id != s[i].id);
                }
            }
        }
    } else {
        let n = s.len() as int;
        assert(t[n].id == node.id);
        assert forall|a: int, b: int| 0 <= a < b < t.len() implies t[a].id != t[b].id by {
            if b < n {
                assert(s[a].id != s[b].id);
            } else {
                assert(t[a] == s[a]);
            }
        }
        assert forall|i: int| 0 <= i < t.len() && #[trigger] t[i].id == node.id implies t[i].geometry
            == node.geometry by {
            if i < n {
                assert(t[i] == s[i]);
            }
        }
    }
}

} // verus!

verus! {

/// How many textures are loaded after a node was placed with `placement`
/// while `textures` were: one more where the placement asked for the
/// texture.
pub open spec fn textures_after(textures: int, placement: Placement) -> int {
    if placement == Placement::AddedWithTexture {
        textures + 1
    } else {
        textures
    }
}

/// Whether `textures` textures are loaded, at most one, and every textured
/// node of `s` draws with one of them.
pub open spec fn textures_ok<G>(s: Seq<Node<G>>, textures: int) -> bool {
    &&& 0 <= textures <= 1
    &&& forall|i: int|
        0 <= i < s.len() && #[trigger] s[i].kind == TEXTURED_KIND ==> s[i].textureid < textures
}

/// The texture is loaded once: placing a node that comes with texture index
/// 0 keeps at most one texture loaded, and every textured node's index below
/// the number loaded.
pub proof fn law_texture_loaded_once<G>(s: Seq<Node<G>>, node: Node<G>, textures: usize)
    requires
        textures_ok(s, textures as int),
        node.textureid == 0,
    ensures
        textures_ok(
            upsert_spec(s, node, textures).0,
            textures_after(textures as int, upsert_spec(s, node, textures).1),
        ),
{
    let (t, p) = upsert_spec(s, node, textures);
    let after = textures_after(textures as int, p);
    if has_id(s, node.id) {
        let c = choose|c: int| 0 <= c < s.len() && s[c].id == node.id;
        assert forall|i: int| 0 <= i < t.len() && #[trigger] t[i].kind == TEXTURED_KIND implies t[i].textureid
            < after by {
            assert(t[i].kind == s[i].kind && t[i].textureid == s[i].textureid);
        }
    } else {
        let n = s.len() as int;
        assert forall|i: int| 0 <= i < t.len() && #[trigger] t[i].kind == TEXTURED_KIND implies t[i].textureid
            < after by {
            if i < n {
                assert(t[i] == s[i]);
            }
        }
    }
}

/// The scene and the number of textures loaded after each node of `nodes`
/// is placed in turn, starting from an empty scene with no texture.
pub open spec fn scene_run<G>(nodes: Seq<Node<G>>) -> (Seq<Node<G>>, int)
    decreases nodes.len(),
{
    if nodes.len() == 0 {
        (Seq::empty(), 0)
    } else {
        let (s, t) = scene_run(nodes.drop_last());
        let (s2, p) = upsert_spec(s, nodes.last(), t as usize);
        (s2, textures_after(t, p))
    }
}

/// Over any run of requests to the view, each with texture index 0, as the
/// view builds them: the scene keeps one node per id, holds a node for every
/// id it was sent, loads at most one texture, and every textured node draws
/// with a loaded texture.
pub proof fn law_scene_run<G>(nodes: Seq<Node<G>>)
    requires
        forall|i: int| 0 <= i < nodes.len() ==> (#[trigger] nodes[i]).textureid == 0,
    ensures
        ids_distinct(scene_run(nodes).0),
        textures_ok(scene_run(nodes).0, scene_run(nodes).1),
        forall|i: int| 0 <= i < nodes.len() ==> has_id(scene_run(nodes).0, (#[trigger] nodes[i]).id),
    decreases nodes.len(),
{
    if nodes.len() > 0 {
        let prev = nodes.drop_last();
        assert forall|i: int| 0 <= i < prev.len() implies (#[trigger] prev[i]).textureid == 0 by {
            assert(prev[i] == nodes[i]);
        }
        law_scene_run(prev);
        let (s, t) = scene_run(prev);
        let node = nodes.last();
        assert(nodes[nodes.len() - 1] == node);
        assert(t as usize == t);
        law_one_node_per_id(s, node, t as usize);
        law_texture_loaded_once(s, node, t as usize);
        let s2 = scene_run(nodes).0;
        assert forall|i: int| 0 <= i < nodes.len() implies has_id(s2, (#[trigger] nodes[i]).id) by {
            if i < prev.len() {
                assert(prev[i] == nodes[i]);
                assert(has_id(s, nodes[i].id));
                let k = choose|k: int| 0 <= k < s.len() && s[k].id == nodes[i].id;
                if has_id(s, node.id) {
                    assert(s2[k].id == s[k].id);
                } else {
                    assert(s2[k] == s[k]);
                }
            }
        }
    }
}

/// The scene and the number of textures loaded after each node of `nodes`
/// is placed in turn, starting from the scene `s` with `textures` textures.
pub open spec fn scene_run_from<G>(s: Seq<Node<G>>, textures: int, nodes: Seq<Node<G>>) -> (
    Seq<Node<G>>,
    int,
)
    decreases nodes.len(),
{
    if nodes.len() == 0 {
        (s, textures)
    } else {
        let (r, t) = scene_run_from(s, textures, nodes.drop_last());
        let (r2, p) = upsert_spec(r, nodes.last(), t as usize);
        (r2, textures_after(t, p))
    }
}

/// The ids of `nodes` that `s` does not hold, each once, in the order of
/// their first occurrence.
pub open spec fn fresh_ids<G>(s: Seq<Node<G>>, nodes: Seq<Node<G>>) -> Seq<i32>
    decreases nodes.len(),
{
    if nodes.len() == 0 {
        Seq::empty()
    } else {
        let prev = fresh_ids(s, nodes.drop_last());
        let id = nodes.last().id;
        if has_id(s, id) || prev.contains(id) {
            prev
        } else {
            prev.push(id)
        }
    }
}

/// Over any run of requests to the view: the scene keeps one node per id,
/// the nodes it had keep their places and ids, and after them come exactly
/// the new ids, once each, in the order in which they first arrived; so the
/// scene grows by the number of new ids.
pub proof fn law_scene_run_keeps_order<G>(s: Seq<Node<G>>, textures: int, nodes: Seq<Node<G>>)
    requires
        ids_distinct(s),
    ensures
        ids_distinct(scene_run_from(s, textures, nodes).0),
        scene_run_from(s, textures, nodes).0.len() == s.len() + fresh_ids(s, nodes).len(),
        forall|k: int|
            0 <= k < s.len() ==> (#[trigger] scene_run_from(s, textures, nodes).0[k]).id == s[k].id,
        forall|k: int|
            0 <= k < fresh_ids(s, nodes).len() ==> scene_run_from(s, textures, nodes).0[s.len()
                + k].id == #[trigger] fresh_ids(s, nodes)[k],
    decreases nodes.len(),
{
    if nodes.len() > 0 {
        let prev = nodes.drop_last();
        law_scene_run_keeps_order(s, textures, prev);
        let (r0, t0) = scene_run_from(s, textures, prev);
        let f0 = fresh_ids(s, prev);
        let node = nodes.last();
        let n = s.len() as int;
        law_one_node_per_id(r0, node, t0 as usize);
        let r = scene_run_from(s, textures, nodes).0;
        if has_id(r0, node.id) {
            let c = choose|c: int| 0 <= c < r0.len() && r0[c].id == node.id;
            if c < n {
                assert(has_id(s, node.id));
            } else {
                assert(f0[c - n] == node.id);
                assert(f0.contains(node.id));
            }
            assert(fresh_ids(s, nodes) == f0);
            assert forall|k: int| 0 <= k < r.len() implies #[trigger] r[k].id == r0[k].id by {}
        } else {
            if has_id(s, node.id) {
                let k = choose|k: int| 0 <= k < s.len() && s[k].id == node.id;
                assert(r0[k].id == node.id);
            }
            if f0.contains(node.id) {
                let k = choose|k: int| 0 <= k < f0.len() && f0[k] == node.id;
                assert(r0[n + k].id == node.id);
            }
            assert(fresh_ids(s, nodes) == f0.push(node.id));
            assert forall|k: int| 0 <= k < r0.len() implies #[trigger] r[k] == r0[k] by {}
        }
    }
}

/// Placing a node whose id is in the scene changes only the node with that
/// id: the scene keeps its length, that node takes the new geometry and
/// keeps its kind, text and texture, and every node with another id is
/// exactly as it was. Placing a node whose id is new appends it, with texture
/// 0 where it is the first textured node and its own texture index otherwise,
/// and changes nothing else.
pub proof fn law_upsert_touches_only_its_id<G>(s: Seq<Node<G>>, node: Node<G>, textures: usize)
    requires
        ids_distinct(s),
    ensures
        has_id(s, node.id) ==> {
            let r = upsert_spec(s, node, textures).0;
            &&& upsert_spec(s, node, textures).1 == Placement::Updated
            &&& r.len() == s.len()
            &&& forall|k: int|
                0 <= k < s.len() ==> if s[k].id == node.id {
                    &&& r[k].id == node.id
                    &&& r[k].geometry == node.geometry
                    &&& r[k].kind == s[k].kind
                    &&& r[k].text == s[k].text
                    &&& r[k].textureid == s[k].textureid
                } else {
                    r[k] == s[k]
                }
        },
        !has_id(s, node.id) ==> {
            let r = upsert_spec(s, node, textures).0;
            &&& r.len() == s.len() + 1
            &&& forall|k: int| 0 <= k < s.len() ==> r[k] == s[k]
            &&& r[s.len() as int].id == node.id
            &&& r[s.len() as int].kind == node.kind
            &&& r[s.len() as int].geometry == node.geometry
            &&& r[s.len() as int].text == node.text
            &&& if node.kind == 1160 && textures == 0 {
                &&& r[s.len() as int].textureid == 0
                &&& upsert_spec(s, node, textures).1 == Placement::AddedWithTexture
            } else {
                &&& r[s.len() as int].textureid == node.textureid
                &&& upsert_spec(s, node, textures).1 == Placement::Added
            }
        },
{
    if has_id(s, node.id) {
        let c = choose|c: int| 0 <= c < s.len() && s[c].id == node.id;
        assert forall|k: int| 0 <= k < s.len() && s[k].id == node.id implies k == c by {
            if k < c {
                assert(s[k].id != s[c].id);
            } else if k > c {
                assert(s[c].id != s[k].id);
            }
        }
    }
}

} // verus!
