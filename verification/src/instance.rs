use vstd::prelude::*;
use crate::document::{Mesh, Node, node_meshes_in_range, forest_meshes_in_range};
use crate::transform::{Transform, local_matrix, local_matrix_bits, mat_mul, mat_product};

verus! {

/// One instance record, emitted for every node that references a mesh:
/// the node's absolute transform, the running global primitive-instance
/// offset at emission, and the index of the mesh whose bottom-level
/// structure it instances.
#[derive(Clone, Copy, Debug, PartialEq, Eq)]
pub struct BlasInstance {
    pub transform: Transform,
    pub instance_offset: u32,
    pub mesh_index: u32,
}

/// The mathematical form of one instance record: transform bit patterns,
/// primitive-instance offset, and mesh index.
pub struct InstanceModel {
    pub transform: Seq<u32>,
    pub instance_offset: nat,
    pub mesh_index: nat,
}

/// How many primitive instances a node itself contributes: the primitive
/// count of its referenced mesh, or none.
pub open spec fn node_own_count(n: Node, meshes: Seq<Mesh>) -> nat {
    match n.mesh {
        Some(i) => meshes[i as int].primitives@.len(),
        None => 0,
    }
}

/// The total primitive-instance contribution of a subtree: the node's own
/// count plus its children's, counted once per node reference.
pub open spec fn subtree_count(n: Node, meshes: Seq<Mesh>) -> nat
    decreases n,
{
    node_own_count(n, meshes) + forest_count(n.children@, meshes)
}

/// The total primitive-instance contribution of a forest of subtrees.
pub open spec fn forest_count(s: Seq<Node>, meshes: Seq<Mesh>) -> nat
    decreases s,
{
    if s.len() == 0 {
        0
    } else {
        subtree_count(s[0], meshes) + forest_count(s.drop_first(), meshes)
    }
}

/// A node's absolute transform: its local matrix for a root, and the
/// parent's absolute transform composed on the left of the local matrix
/// otherwise. Composing parent-before-local uniformly top-down is the one
/// fixed composition order of the whole compiler.
pub open spec fn node_abs(parent: Option<Seq<u32>>, local: Seq<u32>) -> Seq<u32> {
    match parent {
        Some(p) => mat_product(p, local),
        None => local,
    }
}

/// The instance records of a depth-first pre-order traversal of one
/// subtree: the node's own record first — absolute transform, current
/// offset, mesh index — then its children's records left to right, with
/// the offset advanced by each emitted mesh's primitive count.
pub open spec fn node_instances(n: Node, meshes: Seq<Mesh>, parent: Option<Seq<u32>>, offset: nat) -> Seq<InstanceModel>
    decreases n,
{
    let abs = node_abs(parent, local_matrix_bits(n.transform));
    let own = match n.mesh {
        Some(i) => seq![
            InstanceModel { transform: abs, instance_offset: offset, mesh_index: i as nat },
        ],
        None => Seq::empty(),
    };
    own + forest_instances(n.children@, meshes, Some(abs), offset + node_own_count(n, meshes))
}

/// The instance records of a forest of subtrees, visited left to right,
/// each passed the same parent transform and the offset accumulated over
/// its left siblings.
pub open spec fn forest_instances(s: Seq<Node>, meshes: Seq<Mesh>, parent: Option<Seq<u32>>, offset: nat) -> Seq<InstanceModel>
    decreases s,
{
    if s.len() == 0 {
        Seq::empty()
    } else {
        node_instances(s[0], meshes, parent, offset) + forest_instances(
            s.drop_first(),
            meshes,
            parent,
            offset + subtree_count(s[0], meshes),
        )
    }
}

/// Whether an emitted record realises a model record bit for bit.
pub open spec fn instance_models(b: BlasInstance, m: InstanceModel) -> bool {
    &&& b.transform.m@ == m.transform
    &&& b.instance_offset == m.instance_offset
    &&& b.mesh_index == m.mesh_index
}

/// Whether a record sequence realises a model sequence pointwise.
pub open spec fn instances_model(bs: Seq<BlasInstance>, ms: Seq<InstanceModel>) -> bool {
    &&& bs.len() == ms.len()
    &&& forall|k: int| 0 <= k < bs.len() ==> instance_models(#[trigger] bs[k], ms[k])
}

/// The spec view of an optional borrowed parent transform.
pub open spec fn parent_bits(p: Option<&Transform>) -> Option<Seq<u32>> {
    match p {
        Some(t) => Some(t.m@),
        None => None,
    }
}

/// Realisation is preserved by concatenation.
proof fn lemma_instances_model_concat(
    a: Seq<BlasInstance>,
    x: Seq<InstanceModel>,
    b: Seq<BlasInstance>,
    y: Seq<InstanceModel>,
)
    requires
        instances_model(a, x),
        instances_model(b, y),
    ensures
        instances_model(a + b, x + y),
{
    assert forall|k: int| 0 <= k < (a + b).len() implies instance_models(
        #[trigger] (a + b)[k],
        (x + y)[k],
    ) by {
        if k < a.len() {
            assert((a + b)[k] == a[k]);
            assert((x + y)[k] == x[k]);
        } else {
            assert((a + b)[k] == b[k - a.len()]);
            assert((x + y)[k] == y[k - x.len()]);
        }
    }
}

/// A forest's count grows by the appended subtree's count.
proof fn lemma_forest_count_push(s: Seq<Node>, n: Node, meshes: Seq<Mesh>)
    ensures
        forest_count(s.push(n), meshes) == forest_count(s, meshes) + subtree_count(n, meshes),
    decreases s,
{
    if s.len() == 0 {
        assert(s.push(n)[0] == n);
        assert(s.push(n).drop_first() =~= Seq::<Node>::empty());
        assert(forest_count(Seq::<Node>::empty(), meshes) == 0);
    } else {
        assert(s.push(n)[0] == s[0]);
        assert(s.push(n).drop_first() =~= s.drop_first().push(n));
        lemma_forest_count_push(s.drop_first(), n, meshes);
    }
}

/// A forest's instance records grow by the appended subtree's records,
/// emitted at the offset accumulated over the whole forest before it.
proof fn lemma_forest_instances_push(
    s: Seq<Node>,
    n: Node,
    meshes: Seq<Mesh>,
    parent: Option<Seq<u32>>,
    offset: nat,
)
    ensures
        forest_instances(s.push(n), meshes, parent, offset) == forest_instances(
            s,
            meshes,
            parent,
            offset,
        ) + node_instances(n, meshes, parent, offset + forest_count(s, meshes)),
    decreases s,
{
    if s.len() == 0 {
        assert(s.push(n)[0] == n);
        assert(s.push(n).drop_first() =~= Seq::<Node>::empty());
        assert(forest_instances(Seq::<Node>::empty(), meshes, parent, offset + subtree_count(n, meshes))
            =~= Seq::<InstanceModel>::empty());
        assert(forest_instances(s, meshes, parent, offset) =~= Seq::<InstanceModel>::empty());
        assert(forest_count(s, meshes) == 0);
        assert(forest_instances(s.push(n), meshes, parent, offset) =~= forest_instances(
            s,
            meshes,
            parent,
            offset,
        ) + node_instances(n, meshes, parent, offset + forest_count(s, meshes)));
    } else {
        assert(s.push(n)[0] == s[0]);
        assert(s.push(n).drop_first() =~= s.drop_first().push(n));
        lemma_forest_instances_push(
            s.drop_first(),
            n,
            meshes,
            parent,
            offset + subtree_count(s[0], meshes),
        );
        assert(forest_instances(s.push(n), meshes, parent, offset) =~= forest_instances(
            s,
            meshes,
            parent,
            offset,
        ) + node_instances(n, meshes, parent, offset + forest_count(s, meshes)));
    }
}

/// A forest's count splits at any position.
proof fn lemma_forest_count_split(s: Seq<Node>, t: int, meshes: Seq<Mesh>)
    requires
        0 <= t <= s.len(),
    ensures
        forest_count(s, meshes) == forest_count(s.take(t), meshes) + forest_count(
            s.skip(t),
            meshes,
        ),
    decreases t,
{
    if t == 0 {
        assert(s.take(0) =~= Seq::<Node>::empty());
        assert(forest_count(Seq::<Node>::empty(), meshes) == 0);
        assert(s.skip(0) =~= s);
    } else {
        lemma_forest_count_split(s.drop_first(), t - 1, meshes);
        assert(s.take(t)[0] == s[0]);
        assert(s.take(t).drop_first() =~= s.drop_first().take(t - 1));
        assert(s.skip(t) =~= s.drop_first().skip(t - 1));
    }
}

/// What visiting one subtree guarantees: the counter has advanced by the
/// subtree's primitive-instance contribution, earlier records are
/// untouched, and the appended records realise the subtree's traversal
/// model at the counter's starting value.
pub open spec fn process_node_post(
    node: Node,
    meshes: Seq<Mesh>,
    parent: Option<Seq<u32>>,
    old_instances: Seq<BlasInstance>,
    new_instances: Seq<BlasInstance>,
    old_off: u32,
    new_off: u32,
) -> bool {
    let emitted = node_instances(node, meshes, parent, old_off as nat);
    &&& new_off == old_off + subtree_count(node, meshes)
    &&& new_instances.len() == old_instances.len() + emitted.len()
    &&& forall|k: int| 0 <= k < old_instances.len() ==> new_instances[k] == old_instances[k]
    &&& instances_model(new_instances.skip(old_instances.len() as int), emitted)
}

/// Visits one subtree depth-first in pre-order. A node with a mesh emits
/// exactly one record carrying the node's absolute transform, the
/// counter's current value and the mesh's index; the counter then
/// advances by that mesh's primitive count — primitives, not instances —
/// so shading can map a ray hit back into the flat primitive table.
/// Children are visited after their parent, against the parent's composed
/// absolute transform, never the node-local one; a root (no parent)
/// takes its local matrix as its absolute transform.
pub fn process_node(
    node: &Node,
    meshes: &Vec<Mesh>,
    instances: &mut Vec<BlasInstance>,
    instance_offset: &mut u32,
    parent_transform: Option<&Transform>,
)
    requires
        node_meshes_in_range(*node, meshes@.len() as int),
        meshes@.len() <= 0xFFFF_FFFF,
        *old(instance_offset) + subtree_count(*node, meshes@) <= 0xFFFF_FFFF,
    ensures
        process_node_post(
            *node,
            meshes@,
            parent_bits(parent_transform),
            old(instances)@,
            final(instances)@,
            *old(instance_offset),
            *final(instance_offset),
        ),
    decreases *node,
{
    let ghost old_len = old(instances)@.len() as int;
    let ghost old_off = *old(instance_offset);
    let ghost parent = parent_bits(parent_transform);
    let local = local_matrix(&node.transform);
    let abs = match parent_transform {
        Some(p) => mat_mul(p, &local),
        None => local,
    };
    let ghost abs_bits = node_abs(parent, local_matrix_bits(node.transform));
    proof {
        assert(abs.m@ == abs_bits);
    }
    let ghost own_ms = (match node.mesh {
        Some(i) => seq![
            InstanceModel {
                transform: abs_bits,
                instance_offset: old_off as nat,
                mesh_index: i as nat,
            },
        ],
        None => Seq::<InstanceModel>::empty(),
    });
    if let Some(mi) = node.mesh {
        proof {
            assert(mi < meshes@.len());
            assert(node_own_count(*node, meshes@) <= subtree_count(*node, meshes@));
        }
        let count = meshes[mi].primitives.len();
        instances.push(
            BlasInstance {
                transform: abs,
                instance_offset: *instance_offset,
                mesh_index: mi as u32,
            },
        );
        *instance_offset = *instance_offset + (count as u32);
    }
    proof {
        assert(*instance_offset == old_off + node_own_count(*node, meshes@));
        assert(instances@.len() == old_len + own_ms.len());
        assert(instances_model(instances@.skip(old_len), own_ms));
    }
    let ghost off_after_own = old_off as nat + node_own_count(*node, meshes@);
    let mut c: usize = 0;
    while c < node.children.len()
        invariant
            forest_meshes_in_range(node.children@, meshes@.len() as int),
            meshes@.len() <= 0xFFFF_FFFF,
            c <= node.children@.len(),
            *instance_offset == off_after_own + forest_count(
                node.children@.take(c as int),
                meshes@,
            ),
            abs.m@ == abs_bits,
            old_len == old(instances)@.len(),
            off_after_own == old_off + node_own_count(*node, meshes@),
            old_off + subtree_count(*node, meshes@) <= 0xFFFF_FFFF,
            subtree_count(*node, meshes@) == node_own_count(*node, meshes@) + forest_count(
                node.children@,
                meshes@,
            ),
            instances@.len() == old_len + own_ms.len() + forest_instances(
                node.children@.take(c as int),
                meshes@,
                Some(abs_bits),
                off_after_own,
            ).len(),
            forall|k: int| 0 <= k < old_len ==> instances@[k] == old(instances)@[k],
            instances_model(
                instances@.skip(old_len),
                own_ms + forest_instances(
                    node.children@.take(c as int),
                    meshes@,
                    Some(abs_bits),
                    off_after_own,
                ),
            ),
        decreases node.children@.len() - c,
    {
        let ghost cs = node.children@;
        let ghost ci = c as int;
        proof {
            lemma_forest_count_split(cs, ci, meshes@);
            assert(cs.skip(ci)[0] == cs[ci]);
            assert(cs.skip(ci).drop_first() =~= cs.skip(ci + 1));
            assert(forest_count(cs.skip(ci), meshes@) == subtree_count(cs[ci], meshes@)
                + forest_count(cs.skip(ci + 1), meshes@));
            assert(node_meshes_in_range(cs[ci], meshes@.len() as int));
            assert(*instance_offset + subtree_count(cs[ci], meshes@) <= 0xFFFF_FFFF);
        }
        let ghost pre = instances@;
        let ghost pre_off = *instance_offset;
        process_node(&node.children[c], meshes, instances, instance_offset, Some(&abs));
        proof {
            let child = cs[ci];
            let child_em = node_instances(child, meshes@, Some(abs_bits), pre_off as nat);
            assert(instances@.len() == pre.len() + child_em.len());
            assert(instances_model(instances@.skip(pre.len() as int), child_em));
            assert(instances@.skip(old_len) =~= pre.skip(old_len) + instances@.skip(
                pre.len() as int,
            ));
            lemma_instances_model_concat(
                pre.skip(old_len),
                own_ms + forest_instances(cs.take(ci), meshes@, Some(abs_bits), off_after_own),
                instances@.skip(pre.len() as int),
                child_em,
            );
            lemma_forest_count_push(cs.take(ci), child, meshes@);
            lemma_forest_instances_push(cs.take(ci), child, meshes@, Some(abs_bits), off_after_own);
            assert(cs.take(ci).push(child) =~= cs.take(ci + 1));
            assert(pre_off as nat == off_after_own + forest_count(cs.take(ci), meshes@));
            assert((own_ms + forest_instances(cs.take(ci), meshes@, Some(abs_bits), off_after_own))
                + child_em =~= own_ms + forest_instances(
                cs.take(ci + 1),
                meshes@,
                Some(abs_bits),
                off_after_own,
            ));
        }
        c = c + 1;
    }
    proof {
        assert(node.children@.take(node.children@.len() as int) =~= node.children@);
        assert(node_instances(*node, meshes@, parent, old_off as nat) == own_ms
            + forest_instances(node.children@, meshes@, Some(abs_bits), off_after_own));
    }
}

/// Walks every root of the scene depth-first, starting the global
/// primitive-instance counter at zero and each root's transform chain at
/// its own local matrix. The records come out in traversal order, ready
/// to aggregate into one top-level acceleration structure; after the
/// walk the counter has reached the sum of primitive counts over every
/// mesh reference, counted once per referencing node.
pub fn create_blas_instances(roots: &Vec<Node>, meshes: &Vec<Mesh>) -> (r: Vec<BlasInstance>)
    requires
        forest_meshes_in_range(roots@, meshes@.len() as int),
        meshes@.len() <= 0xFFFF_FFFF,
        forest_count(roots@, meshes@) <= 0xFFFF_FFFF,
    ensures
        instances_model(r@, forest_instances(roots@, meshes@, None, 0)),
{
    let mut instances: Vec<BlasInstance> = Vec::new();
    let mut instance_offset: u32 = 0;
    let mut k: usize = 0;
    while k < roots.len()
        invariant
            forest_meshes_in_range(roots@, meshes@.len() as int),
            meshes@.len() <= 0xFFFF_FFFF,
            forest_count(roots@, meshes@) <= 0xFFFF_FFFF,
            k <= roots@.len(),
            instance_offset == forest_count(roots@.take(k as int), meshes@),
            instances_model(
                instances@,
                forest_instances(roots@.take(k as int), meshes@, None, 0),
            ),
        decreases roots@.len() - k,
    {
        let ghost rs = roots@;
        let ghost ki = k as int;
        proof {
            lemma_forest_count_split(rs, ki, meshes@);
            assert(rs.skip(ki)[0] == rs[ki]);
            assert(rs.skip(ki).drop_first() =~= rs.skip(ki + 1));
            assert(forest_count(rs.skip(ki), meshes@) == subtree_count(rs[ki], meshes@)
                + forest_count(rs.skip(ki + 1), meshes@));
            assert(node_meshes_in_range(rs[ki], meshes@.len() as int));
            assert(instance_offset + subtree_count(rs[ki], meshes@) <= 0xFFFF_FFFF);
        }
        let ghost pre = instances@;
        let ghost pre_off = instance_offset;
        process_node(&roots[k], meshes, &mut instances, &mut instance_offset, None);
        proof {
            let root = rs[ki];
            let root_em = node_instances(root, meshes@, None, pre_off as nat);
            assert(instances_model(instances@.skip(pre.len() as int), root_em));
            assert(instances@ =~= pre + instances@.skip(pre.len() as int));
            lemma_instances_model_concat(
                pre,
                forest_instances(rs.take(ki), meshes@, None, 0),
                instances@.skip(pre.len() as int),
                root_em,
            );
            lemma_forest_count_push(rs.take(ki), root, meshes@);
            lemma_forest_instances_push(rs.take(ki), root, meshes@, None, 0);
            assert(rs.take(ki).push(root) =~= rs.take(ki + 1));
            assert(pre_off as nat == 0 + forest_count(rs.take(ki), meshes@));
            assert(forest_instances(rs.take(ki), meshes@, None, 0) + root_em
                =~= forest_instances(rs.take(ki + 1), meshes@, None, 0));
        }
        k = k + 1;
    }
    proof {
        assert(roots@.take(roots@.len() as int) =~= roots@);
    }
    instances
}

/// Checks that every mesh reference in the subtree lies inside a mesh
/// list of the given length.
pub fn node_meshes_ok(node: &Node, n_meshes: usize) -> (b: bool)
    ensures
        b == node_meshes_in_range(*node, n_meshes as int),
    decreases *node,
{
    if let Some(mi) = node.mesh {
        if mi >= n_meshes {
            return false;
        }
    }
    let mut c: usize = 0;
    while c < node.children.len()
        invariant
            c <= node.children@.len(),
            (match node.mesh {
                Some(i) => i < n_meshes,
                None => true,
            }),
            forall|k: int| 0 <= k < c ==> node_meshes_in_range(
                #[trigger] node.children@[k],
                n_meshes as int,
            ),
        decreases node.children@.len() - c,
    {
        if !node_meshes_ok(&node.children[c], n_meshes) {
            proof {
                assert(!node_meshes_in_range(node.children@[c as int], n_meshes as int));
                assert(!forest_meshes_in_range(node.children@, n_meshes as int));
            }
            return false;
        }
        c = c + 1;
    }
    proof {
        assert(forest_meshes_in_range(node.children@, n_meshes as int));
    }
    true
}

/// Checks that every mesh reference under every root lies inside a mesh
/// list of the given length.
pub fn forest_meshes_ok(roots: &Vec<Node>, n_meshes: usize) -> (b: bool)
    ensures
        b == forest_meshes_in_range(roots@, n_meshes as int),
{
    let mut k: usize = 0;
    while k < roots.len()
        invariant
            k <= roots@.len(),
            forall|k2: int| 0 <= k2 < k ==> node_meshes_in_range(
                #[trigger] roots@[k2],
                n_meshes as int,
            ),
        decreases roots@.len() - k,
    {
        if !node_meshes_ok(&roots[k], n_meshes) {
            proof {
                assert(!forest_meshes_in_range(roots@, n_meshes as int));
            }
            return false;
        }
        k = k + 1;
    }
    true
}

/// A count clipped to one past the largest 32-bit value, so that an
/// overflowing total is still recognisable as overflowing.
pub open spec fn capped(x: int) -> int {
    if x > 0x1_0000_0000 {
        0x1_0000_0000
    } else {
        x
    }
}

/// Adds a subtree's primitive-instance contribution onto a running
/// total, clipping at one past the largest 32-bit value.
fn add_subtree_count(node: &Node, meshes: &Vec<Mesh>, acc: u64) -> (r: u64)
    requires
        node_meshes_in_range(*node, meshes@.len() as int),
        acc <= 0x1_0000_0000,
    ensures
        r == capped(acc + subtree_count(*node, meshes@)),
    decreases *node,
{
    let mut t: u64 = acc;
    if let Some(mi) = node.mesh {
        let own = meshes[mi].primitives.len();
        if (own as u64) > 0x1_0000_0000u64 - t {
            t = 0x1_0000_0000u64;
        } else {
            t = t + (own as u64);
        }
    }
    proof {
        assert(t == capped(acc + node_own_count(*node, meshes@)));
    }
    let mut c: usize = 0;
    while c < node.children.len()
        invariant
            c <= node.children@.len(),
            forest_meshes_in_range(node.children@, meshes@.len() as int),
            t == capped(
                acc + node_own_count(*node, meshes@) + forest_count(
                    node.children@.take(c as int),
                    meshes@,
                ),
            ),
            t <= 0x1_0000_0000,
            acc <= 0x1_0000_0000,
        decreases node.children@.len() - c,
    {
        let ghost t_before = t;
        t = add_subtree_count(&node.children[c], meshes, t);
        proof {
            let cs = node.children@;
            let ci = c as int;
            lemma_forest_count_push(cs.take(ci), cs[ci], meshes@);
            assert(cs.take(ci).push(cs[ci]) =~= cs.take(ci + 1));
        }
        c = c + 1;
    }
    proof {
        assert(node.children@.take(node.children@.len() as int) =~= node.children@);
    }
    t
}

/// Computes the total primitive-instance contribution of the whole node
/// hierarchy, clipped at one past the largest 32-bit value: a clipped
/// result above the 32-bit range means the true total cannot serve as a
/// 32-bit instance offset.
pub fn count_primitive_refs(roots: &Vec<Node>, meshes: &Vec<Mesh>) -> (r: u64)
    requires
        forest_meshes_in_range(roots@, meshes@.len() as int),
    ensures
        r == capped(forest_count(roots@, meshes@) as int),
{
    let mut t: u64 = 0;
    let mut k: usize = 0;
    while k < roots.len()
        invariant
            k <= roots@.len(),
            forest_meshes_in_range(roots@, meshes@.len() as int),
            t == capped(forest_count(roots@.take(k as int), meshes@) as int),
            t <= 0x1_0000_0000,
        decreases roots@.len() - k,
    {
        proof {
            assert(node_meshes_in_range(roots@[k as int], meshes@.len() as int));
        }
        t = add_subtree_count(&roots[k], meshes, t);
        proof {
            let rs = roots@;
            let ki = k as int;
            lemma_forest_count_push(rs.take(ki), rs[ki], meshes@);
            assert(rs.take(ki).push(rs[ki]) =~= rs.take(ki + 1));
        }
        k = k + 1;
    }
    proof {
        assert(roots@.take(roots@.len() as int) =~= roots@);
    }
    t
}

/// Whether a path of child positions leads through existing children.
pub open spec fn path_ok(n: Node, path: Seq<int>) -> bool
    decreases path.len(),
{
    path.len() == 0 || (0 <= path.first() < n.children@.len() && path_ok(
        n.children@[path.first()],
        path.drop_first(),
    ))
}

/// The local matrices met along a path: the starting node's first, then
/// each descendant's in order.
pub open spec fn locals_on_path(n: Node, path: Seq<int>) -> Seq<Seq<u32>>
    decreases path.len(),
{
    if path.len() == 0 {
        seq![local_matrix_bits(n.transform)]
    } else {
        seq![local_matrix_bits(n.transform)] + locals_on_path(
            n.children@[path.first()],
            path.drop_first(),
        )
    }
}

/// The absolute transform the traversal assigns to the node at `path`,
/// starting from a given parent transform: each level composes its
/// parent's absolute transform with its local matrix.
pub open spec fn abs_at(n: Node, parent: Option<Seq<u32>>, path: Seq<int>) -> Seq<u32>
    decreases path.len(),
{
    let abs = node_abs(parent, local_matrix_bits(n.transform));
    if path.len() == 0 {
        abs
    } else {
        abs_at(n.children@[path.first()], Some(abs), path.drop_first())
    }
}

/// The product of a chain of matrices accumulated left to right onto
/// `acc`.
pub open spec fn chain_from(acc: Seq<u32>, ms: Seq<Seq<u32>>) -> Seq<u32>
    decreases ms.len(),
{
    if ms.len() == 0 {
        acc
    } else {
        chain_from(mat_product(acc, ms.first()), ms.drop_first())
    }
}

/// The left-to-right product of a nonempty chain of matrices: the first
/// matrix composed with each later one in order.
pub open spec fn chain_product(ms: Seq<Seq<u32>>) -> Seq<u32>
    recommends
        ms.len() >= 1,
{
    chain_from(ms.first(), ms.drop_first())
}

/// The traversal's absolute transform at any node equals the chain
/// product continued from that node's starting transform.
proof fn lemma_abs_at_chain_from(n: Node, parent: Option<Seq<u32>>, path: Seq<int>)
    requires
        path_ok(n, path),
    ensures
        abs_at(n, parent, path) == chain_from(
            node_abs(parent, local_matrix_bits(n.transform)),
            locals_on_path(n, path).drop_first(),
        ),
    decreases path.len(),
{
    let abs = node_abs(parent, local_matrix_bits(n.transform));
    if path.len() == 0 {
        assert(locals_on_path(n, path).drop_first() =~= Seq::<Seq<u32>>::empty());
    } else {
        let child = n.children@[path.first()];
        lemma_abs_at_chain_from(child, Some(abs), path.drop_first());
        let rest = locals_on_path(child, path.drop_first());
        assert(locals_on_path(n, path).drop_first() =~= rest);
        assert(rest.first() == local_matrix_bits(child.transform));
        assert(node_abs(Some(abs), local_matrix_bits(child.transform)) == mat_product(
            abs,
            rest.first(),
        ));
        assert(rest.drop_first() =~= locals_on_path(child, path.drop_first()).drop_first());
    }
}

/// For every node reachable by a path from a root, the absolute
/// transform the traversal assigns to it is the product of its
/// ancestors' local matrices and its own, taken root-first in one fixed
/// order; in particular a root's absolute transform — the empty path —
/// is its own local matrix.
pub proof fn lemma_absolute_transform_chain(n: Node, path: Seq<int>)
    requires
        path_ok(n, path),
    ensures
        abs_at(n, None, path) == chain_product(locals_on_path(n, path)),
        path.len() == 0 ==> abs_at(n, None, path) == local_matrix_bits(n.transform),
{
    lemma_abs_at_chain_from(n, None, path);
    assert(locals_on_path(n, path).first() == local_matrix_bits(n.transform));
}

/// The node reached by a path of child positions.
pub open spec fn node_at(n: Node, path: Seq<int>) -> Node
    decreases path.len(),
{
    if path.len() == 0 {
        n
    } else {
        node_at(n.children@[path.first()], path.drop_first())
    }
}

/// A forest's instance records split at any position, the right part
/// emitted at the offset accumulated over the left part.
pub proof fn lemma_forest_instances_split(
    s: Seq<Node>,
    meshes: Seq<Mesh>,
    parent: Option<Seq<u32>>,
    offset: nat,
    t: int,
)
    requires
        0 <= t <= s.len(),
    ensures
        forest_instances(s, meshes, parent, offset) == forest_instances(
            s.take(t),
            meshes,
            parent,
            offset,
        ) + forest_instances(
            s.skip(t),
            meshes,
            parent,
            offset + forest_count(s.take(t), meshes),
        ),
    decreases t,
{
    if t == 0 {
        assert(s.take(0) =~= Seq::<Node>::empty());
        assert(forest_instances(Seq::<Node>::empty(), meshes, parent, offset)
            =~= Seq::<InstanceModel>::empty());
        assert(forest_count(Seq::<Node>::empty(), meshes) == 0);
        assert(s.skip(0) =~= s);
        assert(forest_instances(s, meshes, parent, offset) =~= forest_instances(
            s.take(0),
            meshes,
            parent,
            offset,
        ) + forest_instances(s.skip(0), meshes, parent, offset + forest_count(
            s.take(0),
            meshes,
        )));
    } else {
        let rest = s.drop_first();
        lemma_forest_instances_split(rest, meshes, parent, offset + subtree_count(s[0], meshes), t - 1);
        assert(s.take(t)[0] == s[0]);
        assert(s.take(t).drop_first() =~= rest.take(t - 1));
        assert(s.skip(t) =~= rest.skip(t - 1));
        assert(forest_instances(s, meshes, parent, offset) =~= forest_instances(
            s.take(t),
            meshes,
            parent,
            offset,
        ) + forest_instances(s.skip(t), meshes, parent, offset + forest_count(
            s.take(t),
            meshes,
        )));
    }
}

/// Among the records a subtree traversal emits stands one whose
/// transform is the absolute transform of the node at `path`, whenever
/// that node references a mesh.
pub proof fn lemma_instance_carries_absolute_transform(
    n: Node,
    meshes: Seq<Mesh>,
    parent: Option<Seq<u32>>,
    offset: nat,
    path: Seq<int>,
)
    requires
        path_ok(n, path),
        node_at(n, path).mesh is Some,
    ensures
        exists|k: int|
            0 <= k < node_instances(n, meshes, parent, offset).len() && (
            #[trigger] node_instances(n, meshes, parent, offset)[k]).transform == abs_at(
                n,
                parent,
                path,
            ),
    decreases path.len(),
{
    let emitted = node_instances(n, meshes, parent, offset);
    let abs = node_abs(parent, local_matrix_bits(n.transform));
    if path.len() == 0 {
        assert(emitted[0].transform == abs);
    } else {
        let c0 = path.first();
        let child = n.children@[c0];
        let own_count = node_own_count(n, meshes);
        let off_children = offset + own_count;
        lemma_forest_instances_split(n.children@, meshes, Some(abs), off_children, c0);
        let before = forest_instances(n.children@.take(c0), meshes, Some(abs), off_children);
        let off_child = off_children + forest_count(n.children@.take(c0), meshes);
        let tail = n.children@.skip(c0);
        assert(tail[0] == child);
        assert(tail.drop_first() =~= n.children@.skip(c0 + 1));
        let child_em = node_instances(child, meshes, Some(abs), off_child);
        lemma_instance_carries_absolute_transform(
            child,
            meshes,
            Some(abs),
            off_child,
            path.drop_first(),
        );
        let k0 = choose|k0: int|
            0 <= k0 < child_em.len() && (#[trigger] child_em[k0]).transform == abs_at(
                child,
                Some(abs),
                path.drop_first(),
            );
        let own_len = if n.mesh is Some { 1int } else { 0int };
        let k = own_len + before.len() + k0;
        assert(emitted[k] == child_em[k0]);
        assert(emitted[k].transform == abs_at(n, parent, path));
    }
}


/// The sum of the referenced meshes' primitive counts over a sequence of
/// model records, one contribution per record.
pub open spec fn records_count_sum(ms: Seq<InstanceModel>, meshes: Seq<Mesh>) -> nat
    decreases ms.len(),
{
    if ms.len() == 0 {
        0
    } else {
        records_count_sum(ms.drop_last(), meshes) + meshes[
            ms.last().mesh_index as int
        ].primitives@.len()
    }
}

/// The sum of the referenced meshes' primitive counts over a sequence of
/// emitted records, one contribution per record.
pub open spec fn instances_count_sum(bs: Seq<BlasInstance>, meshes: Seq<Mesh>) -> nat
    decreases bs.len(),
{
    if bs.len() == 0 {
        0
    } else {
        instances_count_sum(bs.drop_last(), meshes) + meshes[
            bs.last().mesh_index as int
        ].primitives@.len()
    }
}

/// The record sum distributes over concatenation.
proof fn lemma_records_sum_concat(a: Seq<InstanceModel>, b: Seq<InstanceModel>, meshes: Seq<Mesh>)
    ensures
        records_count_sum(a + b, meshes) == records_count_sum(a, meshes) + records_count_sum(
            b,
            meshes,
        ),
    decreases b.len(),
{
    if b.len() == 0 {
        assert(a + b =~= a);
    } else {
        lemma_records_sum_concat(a, b.drop_last(), meshes);
        assert((a + b).drop_last() =~= a + b.drop_last());
        assert((a + b).last() == b.last());
    }
}

/// Over a forest, the counter's total advance equals the sum of the
/// referenced meshes' primitive counts over every emitted record.
pub proof fn lemma_forest_reference_sum(
    s: Seq<Node>,
    meshes: Seq<Mesh>,
    parent: Option<Seq<u32>>,
    offset: nat,
)
    requires
        forest_meshes_in_range(s, meshes.len() as int),
    ensures
        forest_count(s, meshes) == records_count_sum(
            forest_instances(s, meshes, parent, offset),
            meshes,
        ),
    decreases s,
{
    if s.len() == 0 {
        assert(records_count_sum(Seq::<InstanceModel>::empty(), meshes) == 0);
    } else {
        assert(node_meshes_in_range(s[0], meshes.len() as int));
        assert forall|k: int| 0 <= k < s.drop_first().len() implies node_meshes_in_range(
            #[trigger] s.drop_first()[k],
            meshes.len() as int,
        ) by {
            assert(s.drop_first()[k] == s[k + 1]);
        }
        lemma_counter_is_reference_sum(s[0], meshes, parent, offset);
        lemma_forest_reference_sum(
            s.drop_first(),
            meshes,
            parent,
            offset + subtree_count(s[0], meshes),
        );
        lemma_records_sum_concat(
            node_instances(s[0], meshes, parent, offset),
            forest_instances(s.drop_first(), meshes, parent, offset + subtree_count(s[0], meshes)),
            meshes,
        );
    }
}

/// Over one subtree, the counter's total advance — the subtree's
/// primitive-instance contribution — equals the sum of the referenced
/// meshes' primitive counts over every record the traversal emits, one
/// contribution per node reference. A mesh referenced by two nodes
/// contributes its primitive count twice.
pub proof fn lemma_counter_is_reference_sum(
    n: Node,
    meshes: Seq<Mesh>,
    parent: Option<Seq<u32>>,
    offset: nat,
)
    requires
        node_meshes_in_range(n, meshes.len() as int),
    ensures
        subtree_count(n, meshes) == records_count_sum(
            node_instances(n, meshes, parent, offset),
            meshes,
        ),
    decreases n,
{
    let abs = node_abs(parent, local_matrix_bits(n.transform));
    let own = (match n.mesh {
        Some(i) => seq![
            InstanceModel { transform: abs, instance_offset: offset, mesh_index: i as nat },
        ],
        None => Seq::<InstanceModel>::empty(),
    });
    lemma_forest_reference_sum(
        n.children@,
        meshes,
        Some(abs),
        offset + node_own_count(n, meshes),
    );
    lemma_records_sum_concat(
        own,
        forest_instances(n.children@, meshes, Some(abs), offset + node_own_count(n, meshes)),
        meshes,
    );
    match n.mesh {
        Some(i) => {
            assert(own.drop_last() =~= Seq::<InstanceModel>::empty());
            assert(records_count_sum(Seq::<InstanceModel>::empty(), meshes) == 0);
            assert(own.last().mesh_index == i as nat);
            assert(records_count_sum(own, meshes) == meshes[i as int].primitives@.len());
        },
        None => {
            assert(records_count_sum(own, meshes) == 0);
        },
    }
}

/// Pointwise-equal records carry the same mesh references, so they sum
/// to the same total.
pub proof fn lemma_instances_sum_models(bs: Seq<BlasInstance>, ms: Seq<InstanceModel>, meshes: Seq<Mesh>)
    requires
        instances_model(bs, ms),
    ensures
        instances_count_sum(bs, meshes) == records_count_sum(ms, meshes),
    decreases bs.len(),
{
    if bs.len() > 0 {
        assert(instance_models(bs[bs.len() - 1], ms[ms.len() - 1]));
        assert forall|k: int| 0 <= k < bs.drop_last().len() implies instance_models(
            #[trigger] bs.drop_last()[k],
            ms.drop_last()[k],
        ) by {
            assert(bs.drop_last()[k] == bs[k]);
            assert(ms.drop_last()[k] == ms[k]);
        }
        lemma_instances_sum_models(bs.drop_last(), ms.drop_last(), meshes);
        assert(bs.last() == bs[bs.len() - 1]);
        assert(ms.last() == ms[ms.len() - 1]);
    }
}

} // verus!
