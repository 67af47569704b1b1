//! What an NPC template takes from a skinned model: the links of its joint
//! hierarchy and the number of mesh indices to draw.
//!
//! The model file is read and decoded by the caller; it hands over, for the
//! first skin, the node index of each joint in joint order and the child node
//! indices of each joint, and, for each mesh primitive, its index count.

use vstd::prelude::*;
use crate::constraint::{DistanceConstraints, links_within};

verus! {

/// A parent-child link between two joints, as positions in the joint list
/// (and so as particle indices of the template: one particle per joint).
#[derive(Clone, Copy, Debug, PartialEq, Eq, Structural)]
pub struct JointLink {
    pub node_a: u32,
    pub node_b: u32,
}

/// `p` is the first position in `joints` that holds `node`.
pub open spec fn is_first_position(joints: Seq<usize>, node: usize, p: int) -> bool {
    &&& 0 <= p < joints.len()
    &&& joints[p] == node
    &&& forall|q: int| 0 <= q < p ==> joints[q] != node
}

/// The first position in `joints` that holds `node`, if any.
pub open spec fn first_position(joints: Seq<usize>, node: usize) -> Option<int> {
    if exists|p: int| is_first_position(joints, node, p) {
        Some(choose|p: int| is_first_position(joints, node, p))
    } else {
        None
    }
}

/// The links from the joint at position `idx` to those of `children` that
/// are joints themselves, in the order of `children`; each child is found
/// at its first position in `joints`.
pub open spec fn child_links(joints: Seq<usize>, idx: int, children: Seq<usize>) -> Seq<JointLink>
    decreases children.len(),
{
    if children.len() == 0 {
        Seq::empty()
    } else {
        child_links(joints, idx, children.drop_last()) + match first_position(
            joints,
            children.last(),
        ) {
            Some(p) => seq![JointLink { node_a: idx as u32, node_b: p as u32 }],
            None => Seq::empty(),
        }
    }
}

/// The links of the first `count` joints, joint by joint.
pub open spec fn links_of(joints: Seq<usize>, children: Seq<Seq<usize>>, count: nat) -> Seq<
    JointLink,
>
    decreases count,
{
    if count == 0 {
        Seq::empty()
    } else {
        links_of(joints, children, (count - 1) as nat) + child_links(
            joints,
            count - 1,
            children[count - 1],
        )
    }
}

/// The sum of the index counts, each taken as a `u32`.
pub open spec fn index_total(counts: Seq<usize>) -> int
    decreases counts.len(),
{
    if counts.len() == 0 {
        0
    } else {
        index_total(counts.drop_last()) + (counts.last() as u32) as int
    }
}

proof fn lemma_first_position_unique(joints: Seq<usize>, node: usize, p: int, r: int)
    requires
        is_first_position(joints, node, p),
        is_first_position(joints, node, r),
    ensures
        p == r,
{
    if p < r {
        assert(joints[p] != node);
    } else if r < p {
        assert(joints[r] != node);
    }
}

/// Position of the first joint whose node is `node`, or `None` when `node`
/// is not a joint.
pub fn joint_position(joint_nodes: &Vec<usize>, node: usize) -> (pos: Option<usize>)
    ensures
        match pos {
            Some(p) => first_position(joint_nodes@, node) == Some(p as int),
            None => first_position(joint_nodes@, node) is None,
        },
        match pos {
            Some(p) => p < joint_nodes.len() && joint_nodes@[p as int] == node && forall|q: int|
                0 <= q < p ==> joint_nodes@[q] != node,
            None => forall|q: int| 0 <= q < joint_nodes.len() ==> joint_nodes@[q] != node,
        },
{
    let mut p: usize = 0;
    while p < joint_nodes.len()
        invariant
            p <= joint_nodes.len(),
            forall|q: int| 0 <= q < p ==> joint_nodes@[q] != node,
        decreases joint_nodes.len() - p,
    {
        if joint_nodes[p] == node {
            proof {
                assert(is_first_position(joint_nodes@, node, p as int));
                let c = choose|r: int| is_first_position(joint_nodes@, node, r);
                lemma_first_position_unique(joint_nodes@, node, p as int, c);
            }
            return Some(p);
        }
        p = p + 1;
    }
    assert(!exists|r: int| is_first_position(joint_nodes@, node, r)) by {
        if exists|r: int| is_first_position(joint_nodes@, node, r) {
            let r = choose|r: int| is_first_position(joint_nodes@, node, r);
            assert(joint_nodes@[r] != node);
        }
    }
    None
}

/// The links of a skeleton: for each joint in order, for each of its children
/// in order that is itself a joint, a link from the joint's position to the
/// child's first position in the joint list. Positions are stored as `u32`.
pub fn skeleton_links(joint_nodes: &Vec<usize>, children: &Vec<Vec<usize>>) -> (links: Vec<
    JointLink,
>)
    requires
        children.len() == joint_nodes.len(),
    ensures
        links@ == links_of(joint_nodes@, children.deep_view(), joint_nodes.len() as nat),
{
    let mut links: Vec<JointLink> = Vec::new();
    let mut idx: usize = 0;
    while idx < joint_nodes.len()
        invariant
            idx <= joint_nodes.len(),
            children.len() == joint_nodes.len(),
            links@ == links_of(joint_nodes@, children.deep_view(), idx as nat),
        decreases joint_nodes.len() - idx,
    {
        let kids = &children[idx];
        let ghost before = links@;
        let ghost kids_view = children.deep_view()[idx as int];
        assert(kids_view == kids@);
        let mut k: usize = 0;
        while k < kids.len()
            invariant
                idx < joint_nodes.len(),
                k <= kids.len(),
                kids_view == kids@,
                links@ == before + child_links(joint_nodes@, idx as int, kids@.take(k as int)),
            decreases kids.len() - k,
        {
            let child = kids[k];
            assert(kids@.take(k + 1).drop_last() =~= kids@.take(k as int));
            assert(kids@.take(k + 1).last() == child);
            match joint_position(joint_nodes, child) {
                Some(p) => {
                    links.push(JointLink { node_a: idx as u32, node_b: p as u32 });
                    assert(links@ =~= before + child_links(
                        joint_nodes@,
                        idx as int,
                        kids@.take(k + 1),
                    ));
                },
                None => {
                    assert(links@ =~= before + child_links(
                        joint_nodes@,
                        idx as int,
                        kids@.take(k + 1),
                    ));
                },
            }
            k = k + 1;
        }
        assert(kids@.take(kids.len() as int) =~= kids@);
        idx = idx + 1;
    }
    links
}

/// The number of indices the NPC mesh draws: the sum over its primitives of
/// each primitive's index count taken as a `u32`.
pub fn total_index_count(counts: &Vec<usize>) -> (total: u32)
    requires
        index_total(counts@) <= u32::MAX,
    ensures
        total == index_total(counts@),
{
    let mut total: u32 = 0;
    let mut i: usize = 0;
    while i < counts.len()
        invariant
            i <= counts.len(),
            index_total(counts@) <= u32::MAX,
            total == index_total(counts@.take(i as int)),
        decreases counts.len() - i,
    {
        proof {
            assert(counts@.take(i + 1).drop_last() =~= counts@.take(i as int));
            lemma_index_total_prefix(counts@, i + 1);
        }
        total = total + counts[i] as u32;
        i = i + 1;
    }
    assert(counts@.take(counts.len() as int) =~= counts@);
    total
}

/// Whether the index counts add up to at most `u32::MAX`, so that
/// `total_index_count` can sum them.
pub fn index_total_fits(counts: &Vec<usize>) -> (fits: bool)
    ensures
        fits == (index_total(counts@) <= u32::MAX),
{
    let mut total: u64 = 0;
    let mut i: usize = 0;
    while i < counts.len()
        invariant
            i <= counts.len(),
            total == index_total(counts@.take(i as int)),
            total <= u32::MAX,
        decreases counts.len() - i,
    {
        proof {
            assert(counts@.take(i + 1).drop_last() =~= counts@.take(i as int));
        }
        total = total + (counts[i] as u32) as u64;
        if total > u32::MAX as u64 {
            proof {
                lemma_index_total_prefix(counts@, i + 1);
            }
            return false;
        }
        i = i + 1;
    }
    assert(counts@.take(counts.len() as int) =~= counts@);
    true
}

proof fn lemma_index_total_prefix(counts: Seq<usize>, n: int)
    requires
        0 <= n <= counts.len(),
    ensures
        index_total(counts.take(n)) <= index_total(counts),
    decreases counts.len(),
{
    if n < counts.len() {
        assert(counts.drop_last().take(n) =~= counts.take(n));
        lemma_index_total_prefix(counts.drop_last(), n);
    } else {
        assert(counts.take(n) =~= counts);
    }
}

/// Law: the index total counts every primitive: adding a primitive adds its
/// index count (as a `u32`) to the total, however many came before.
pub proof fn index_total_push(counts: Seq<usize>, count: usize)
    ensures
        index_total(counts.push(count)) == index_total(counts) + (count as u32) as int,
{
    assert(counts.push(count).drop_last() =~= counts);
}

/// Law: the index total of two lists of primitives one after the other is
/// the sum of their totals; no list has a negative total.
pub proof fn index_total_concat(a: Seq<usize>, b: Seq<usize>)
    ensures
        index_total(a + b) == index_total(a) + index_total(b),
        index_total(a) >= 0,
    decreases b.len(),
{
    lemma_index_total_nonneg(a);
    if b.len() == 0 {
        assert(a + b =~= a);
    } else {
        index_total_concat(a, b.drop_last());
        assert((a + b).drop_last() =~= a + b.drop_last());
        assert((a + b).last() == b.last());
    }
}

/// How many of `kids` are joints.
pub open spec fn joint_children_count(joints: Seq<usize>, kids: Seq<usize>) -> nat
    decreases kids.len(),
{
    if kids.len() == 0 {
        0
    } else {
        joint_children_count(joints, kids.drop_last()) + if exists|p: int|
            0 <= p < joints.len() && joints[p] == kids.last() {
            1nat
        } else {
            0nat
        }
    }
}

/// How many (joint, child that is a joint) pairs the first `count` joints have.
pub open spec fn joint_child_pairs(joints: Seq<usize>, children: Seq<Seq<usize>>, count: nat) -> nat
    decreases count,
{
    if count == 0 {
        0
    } else {
        joint_child_pairs(joints, children, (count - 1) as nat) + joint_children_count(
            joints,
            children[count - 1],
        )
    }
}

proof fn lemma_first_position_exists(joints: Seq<usize>, node: usize)
    ensures
        (exists|p: int| 0 <= p < joints.len() && joints[p] == node) <==> first_position(
            joints,
            node,
        ) is Some,
        first_position(joints, node) matches Some(b) ==> is_first_position(joints, node, b),
    decreases joints.len(),
{
    if exists|p: int| 0 <= p < joints.len() && joints[p] == node {
        let p = choose|p: int| 0 <= p < joints.len() && joints[p] == node;
        lemma_smallest_match(joints, node, p);
    }
    if exists|p: int| is_first_position(joints, node, p) {
        let b = choose|p: int| is_first_position(joints, node, p);
        assert(is_first_position(joints, node, b));
    }
}

proof fn lemma_smallest_match(joints: Seq<usize>, node: usize, p: int)
    requires
        0 <= p < joints.len(),
        joints[p] == node,
    ensures
        exists|b: int| is_first_position(joints, node, b),
    decreases p,
{
    if exists|q: int| 0 <= q < p && joints[q] == node {
        let q = choose|q: int| 0 <= q < p && joints[q] == node;
        lemma_smallest_match(joints, node, q);
    } else {
        assert(is_first_position(joints, node, p));
    }
}

proof fn lemma_child_links_count(joints: Seq<usize>, idx: int, kids: Seq<usize>)
    ensures
        child_links(joints, idx, kids).len() == joint_children_count(joints, kids),
    decreases kids.len(),
{
    if kids.len() > 0 {
        lemma_child_links_count(joints, idx, kids.drop_last());
        lemma_first_position_exists(joints, kids.last());
    }
}

/// Law: there is exactly one link per (joint, child that is a joint) pair.
pub proof fn links_count_pairs(joints: Seq<usize>, children: Seq<Seq<usize>>, count: nat)
    ensures
        links_of(joints, children, count).len() == joint_child_pairs(joints, children, count),
    decreases count,
{
    if count > 0 {
        links_count_pairs(joints, children, (count - 1) as nat);
        lemma_child_links_count(joints, count - 1, children[count - 1]);
    }
}

proof fn lemma_child_links_complete(joints: Seq<usize>, idx: int, kids: Seq<usize>, w: int, b: int)
    requires
        0 <= w < kids.len(),
        is_first_position(joints, kids[w], b),
    ensures
        child_links(joints, idx, kids).contains(JointLink { node_a: idx as u32, node_b: b as u32 }),
    decreases kids.len(),
{
    let link = JointLink { node_a: idx as u32, node_b: b as u32 };
    let prev = child_links(joints, idx, kids.drop_last());
    let whole = child_links(joints, idx, kids);
    if w == kids.len() - 1 {
        let c = choose|p: int| is_first_position(joints, kids.last(), p);
        lemma_first_position_unique(joints, kids.last(), b, c);
        assert(whole[prev.len() as int] == link);
    } else {
        assert(kids.drop_last()[w] == kids[w]);
        lemma_child_links_complete(joints, idx, kids.drop_last(), w, b);
        let i = choose|i: int| 0 <= i < prev.len() && prev[i] == link;
        assert(whole[i] == link);
    }
}

/// Law: no link is lost: for every joint position `a` below `count` and every
/// child of joint `a` whose first position in the joint list is `b`, the
/// link from `a` to `b` is among the links.
pub proof fn links_complete(
    joints: Seq<usize>,
    children: Seq<Seq<usize>>,
    count: nat,
    a: int,
    w: int,
    b: int,
)
    requires
        0 <= a < count,
        0 <= w < children[a].len(),
        joints[b] == children[a][w],
        0 <= b < joints.len(),
        forall|q: int| 0 <= q < b ==> joints[q] != children[a][w],
    ensures
        links_of(joints, children, count).contains(JointLink { node_a: a as u32, node_b: b as u32 }),
    decreases count,
{
    let link = JointLink { node_a: a as u32, node_b: b as u32 };
    let prev = links_of(joints, children, (count - 1) as nat);
    let whole = links_of(joints, children, count);
    if a == count - 1 {
        lemma_child_links_complete(joints, a, children[a], w, b);
        let tail = child_links(joints, a, children[a]);
        let i = choose|i: int| 0 <= i < tail.len() && tail[i] == link;
        assert(whole[prev.len() + i] == link);
    } else {
        links_complete(joints, children, (count - 1) as nat, a, w, b);
        let i = choose|i: int| 0 <= i < prev.len() && prev[i] == link;
        assert(whole[i] == link);
    }
}

proof fn lemma_index_total_nonneg(counts: Seq<usize>)
    ensures
        index_total(counts) >= 0,
    decreases counts.len(),
{
    if counts.len() > 0 {
        lemma_index_total_nonneg(counts.drop_last());
    }
}

/// Law: every link joins two joints of the skeleton — both positions lie
/// below the joint count (when the joint count fits `u32` positions), so the
/// template's constraints only ever name the template's own particles.
pub proof fn links_stay_within_joints(
    joints: Seq<usize>,
    children: Seq<Seq<usize>>,
    count: nat,
    k: int,
)
    requires
        count <= joints.len(),
        joints.len() <= u32::MAX + 1,
        0 <= k < links_of(joints, children, count).len(),
    ensures
        links_of(joints, children, count)[k].node_a < count,
        links_of(joints, children, count)[k].node_b < joints.len(),
        children[links_of(joints, children, count)[k].node_a as int].contains(
            joints[links_of(joints, children, count)[k].node_b as int],
        ),
    decreases count,
{
    let prev = links_of(joints, children, (count - 1) as nat);
    if k < prev.len() {
        links_stay_within_joints(joints, children, (count - 1) as nat, k);
    } else {
        child_link_facts(joints, count - 1, children[count - 1], k - prev.len());
    }
}

proof fn child_link_facts(joints: Seq<usize>, idx: int, children: Seq<usize>, k: int)
    requires
        0 <= idx < joints.len(),
        joints.len() <= u32::MAX + 1,
        0 <= k < child_links(joints, idx, children).len(),
    ensures
        child_links(joints, idx, children)[k].node_a == idx,
        child_links(joints, idx, children)[k].node_b < joints.len(),
        children.contains(joints[child_links(joints, idx, children)[k].node_b as int]),
    decreases children.len(),
{
    let prev = child_links(joints, idx, children.drop_last());
    if k < prev.len() {
        child_link_facts(joints, idx, children.drop_last(), k);
        let w = choose|w: int|
            0 <= w < children.drop_last().len() && children.drop_last()[w] == joints[child_links(
                joints,
                idx,
                children,
            )[k].node_b as int];
        assert(children[w] == children.drop_last()[w]);
    } else {
        let node = children.last();
        let p = choose|p: int| is_first_position(joints, node, p);
        assert(first_position(joints, node) is Some);
        assert(is_first_position(joints, node, p));
        assert(children[children.len() - 1] == node);
    }
}

/// The template constraint of each link: the link's two particles, the rest
/// length measured for that link (`rest_length_bits[i]`, as `f32` bits) and
/// the common stiffness.
pub open spec fn constraint_of_link(link: JointLink, rest_length_bits: u32, stiffness_bits: u32) -> DistanceConstraints {
    DistanceConstraints {
        node_a: link.node_a,
        node_b: link.node_b,
        rest_length_bits: rest_length_bits,
        stiffness_bits: stiffness_bits,
    }
}

/// The template's constraints: one per link, in link order, with the rest
/// length measured for that link and the given stiffness.
pub fn link_constraints(
    links: &Vec<JointLink>,
    rest_length_bits: &Vec<u32>,
    stiffness_bits: u32,
) -> (constraints: Vec<DistanceConstraints>)
    requires
        rest_length_bits.len() == links.len(),
    ensures
        constraints.len() == links.len(),
        forall|i: int|
            0 <= i < links.len() ==> #[trigger] constraints@[i] == constraint_of_link(
                links@[i],
                rest_length_bits@[i],
                stiffness_bits,
            ),
        forall|i: int|
            0 <= i < links.len() ==> {
                &&& (#[trigger] constraints@[i]).node_a == links@[i].node_a
                &&& constraints@[i].node_b == links@[i].node_b
                &&& constraints@[i].rest_length_bits == rest_length_bits@[i]
                &&& constraints@[i].stiffness_bits == stiffness_bits
            },
{
    let mut constraints: Vec<DistanceConstraints> = Vec::with_capacity(links.len());
    let mut i: usize = 0;
    while i < links.len()
        invariant
            i <= links.len(),
            rest_length_bits.len() == links.len(),
            constraints.len() == i,
            forall|k: int|
                0 <= k < i ==> #[trigger] constraints@[k] == constraint_of_link(
                    links@[k],
                    rest_length_bits@[k],
                    stiffness_bits,
                ),
        decreases links.len() - i,
    {
        let link = links[i];
        constraints.push(
            DistanceConstraints {
                node_a: link.node_a,
                node_b: link.node_b,
                rest_length_bits: rest_length_bits[i],
                stiffness_bits,
            },
        );
        i = i + 1;
    }
    constraints
}

/// Law: the constraints of a skeleton's links only name the skeleton's own
/// particles (one per joint), so the template can be replicated over any
/// crowd whose particles all have `u32` indices.
pub proof fn skeleton_constraints_within(
    joints: Seq<usize>,
    children: Seq<Seq<usize>>,
    rest_length_bits: Seq<u32>,
    stiffness_bits: u32,
    constraints: Seq<DistanceConstraints>,
)
    requires
        joints.len() <= u32::MAX + 1,
        constraints.len() == links_of(joints, children, joints.len()).len(),
        rest_length_bits.len() == constraints.len(),
        forall|i: int|
            0 <= i < constraints.len() ==> #[trigger] constraints[i] == constraint_of_link(
                links_of(joints, children, joints.len())[i],
                rest_length_bits[i],
                stiffness_bits,
            ),
    ensures
        links_within(constraints, joints.len() as int),
{
    assert forall|i: int| 0 <= i < constraints.len() implies (#[trigger] constraints[i]).within(
        joints.len() as int,
    ) by {
        links_stay_within_joints(joints, children, joints.len(), i);
    }
}

} // verus!
