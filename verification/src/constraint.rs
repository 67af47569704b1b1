//! Distance constraints between particles, and their replication over a crowd
//! of NPCs that all share one template skeleton.

use vstd::prelude::*;

verus! {

/// A distance constraint between two particles of the GPU particle buffer.
///
/// `node_a` and `node_b` index the particle buffer. The rest length and the
/// stiffness are 32-bit floats on the GPU; the library never computes with
/// them and carries their bit patterns (`f32::to_bits`) unchanged.
#[derive(Clone, Copy, Debug, PartialEq, Eq, Structural)]
pub struct DistanceConstraints {
    pub node_a: u32,
    pub node_b: u32,
    pub rest_length_bits: u32,
    pub stiffness_bits: u32,
}

impl DistanceConstraints {
    /// Both particle indices moved up by `offset`, everything else kept.
    pub open spec fn shifted(self, offset: int) -> DistanceConstraints {
        DistanceConstraints {
            node_a: (self.node_a + offset) as u32,
            node_b: (self.node_b + offset) as u32,
            rest_length_bits: self.rest_length_bits,
            stiffness_bits: self.stiffness_bits,
        }
    }

    /// Moving both indices up by `offset` stays within `u32`.
    pub open spec fn fits_shift(self, offset: int) -> bool {
        &&& self.node_a + offset <= u32::MAX
        &&& self.node_b + offset <= u32::MAX
    }

    /// Both particle indices lie below `nodes_count`.
    pub open spec fn within(self, nodes_count: int) -> bool {
        &&& self.node_a < nodes_count
        &&& self.node_b < nodes_count
    }

    /// The same constraint for an NPC whose particles start at `index_offset`.
    pub fn shift(&self, index_offset: u32) -> (moved: DistanceConstraints)
        requires
            self.fits_shift(index_offset as int),
        ensures
            moved == self.shifted(index_offset as int),
    {
        DistanceConstraints {
            node_a: self.node_a + index_offset,
            node_b: self.node_b + index_offset,
            rest_length_bits: self.rest_length_bits,
            stiffness_bits: self.stiffness_bits,
        }
    }
}

/// Every constraint of `template` links particles below `nodes_count`.
pub open spec fn links_within(template: Seq<DistanceConstraints>, nodes_count: int) -> bool {
    forall|j: int| 0 <= j < template.len() ==> (#[trigger] template[j]).within(nodes_count)
}

/// The template's constraints for the NPC whose particles start at `offset`.
pub open spec fn npc_block(template: Seq<DistanceConstraints>, offset: int) -> Seq<
    DistanceConstraints,
> {
    template.map_values(|c: DistanceConstraints| c.shifted(offset))
}

/// The constraints of `npc_count` NPCs of `nodes_count` particles each: the
/// template once per NPC, NPC `i`'s copy pointing at particles
/// `i * nodes_count ..`.
pub open spec fn replicated(
    template: Seq<DistanceConstraints>,
    nodes_count: nat,
    npc_count: nat,
) -> Seq<DistanceConstraints>
    decreases npc_count,
{
    if npc_count == 0 {
        Seq::empty()
    } else {
        replicated(template, nodes_count, (npc_count - 1) as nat) + npc_block(
            template,
            (npc_count - 1) * nodes_count,
        )
    }
}

/// The last NPC's offset can be added to every template index in `u32`; the
/// offsets of all earlier NPCs are smaller.
pub open spec fn shifts_fit(
    template: Seq<DistanceConstraints>,
    nodes_count: nat,
    npc_count: nat,
) -> bool {
    npc_count > 0 ==> forall|j: int|
        0 <= j < template.len() ==> (#[trigger] template[j]).fits_shift(
            (npc_count - 1) * nodes_count,
        )
}

proof fn lemma_offset_below(i: nat, npc_count: nat, nodes_count: nat)
    requires
        i < npc_count,
    ensures
        i * nodes_count <= (npc_count - 1) * nodes_count,
        (npc_count - 1) * nodes_count + nodes_count == npc_count * nodes_count,
{
    assert(i * nodes_count <= (npc_count - 1) * nodes_count) by (nonlinear_arith)
        requires
            i <= npc_count - 1,
    ;
    assert((npc_count - 1) * nodes_count + nodes_count == npc_count * nodes_count)
        by (nonlinear_arith);
}

/// The constraint buffer of a crowd: `npc_count` copies of `template`, the
/// copy of NPC `i` with both particle indices moved up by
/// `i * nodes_count`, so that it links NPC `i`'s own particles.
pub fn replicate_constraints(
    template: &Vec<DistanceConstraints>,
    nodes_count: usize,
    npc_count: usize,
) -> (all: Vec<DistanceConstraints>)
    requires
        npc_count * nodes_count <= usize::MAX,
        npc_count * template.len() <= usize::MAX,
        shifts_fit(template@, nodes_count as nat, npc_count as nat),
    ensures
        all@ == replicated(template@, nodes_count as nat, npc_count as nat),
{
    let mut all: Vec<DistanceConstraints> = Vec::with_capacity(npc_count * template.len());
    let mut i: usize = 0;
    while i < npc_count
        invariant
            i <= npc_count,
            npc_count * nodes_count <= usize::MAX,
            shifts_fit(template@, nodes_count as nat, npc_count as nat),
            all@ == replicated(template@, nodes_count as nat, i as nat),
        decreases npc_count - i,
    {
        proof {
            lemma_offset_below(i as nat, npc_count as nat, nodes_count as nat);
        }
        let base: usize = i * nodes_count;
        let index_offset: u32 = base as u32;
        let ghost before = all@;
        let mut j: usize = 0;
        while j < template.len()
            invariant
                i < npc_count,
                j <= template.len(),
                base == i * nodes_count,
                base <= (npc_count - 1) * nodes_count,
                index_offset == base as u32,
                shifts_fit(template@, nodes_count as nat, npc_count as nat),
                before == replicated(template@, nodes_count as nat, i as nat),
                all@ == before + npc_block(template@, base as int).take(j as int),
            decreases template.len() - j,
        {
            let c = &template[j];
            assert(c.fits_shift((npc_count - 1) * nodes_count));
            assert(index_offset == base);
            all.push(c.shift(index_offset));
            assert(npc_block(template@, base as int).take(j + 1) =~= npc_block(
                template@,
                base as int,
            ).take(j as int).push(c.shifted(base as int)));
            j = j + 1;
        }
        assert(npc_block(template@, base as int).take(template.len() as int) =~= npc_block(
            template@,
            base as int,
        ));
        i = i + 1;
    }
    all
}

/// Whether `replicate_constraints` accepts these arguments: the crowd's
/// particle and constraint counts fit `usize`, and every shifted index fits
/// `u32`.
pub fn replication_fits(
    template: &Vec<DistanceConstraints>,
    nodes_count: usize,
    npc_count: usize,
) -> (fits: bool)
    ensures
        fits == (npc_count * nodes_count <= usize::MAX && npc_count * template.len() <= usize::MAX
            && shifts_fit(template@, nodes_count as nat, npc_count as nat)),
{
    let particles = npc_count.checked_mul(nodes_count);
    let constraints = npc_count.checked_mul(template.len());
    if particles.is_none() || constraints.is_none() {
        return false;
    }
    if npc_count == 0 {
        return true;
    }
    proof {
        lemma_offset_below((npc_count - 1) as nat, npc_count as nat, nodes_count as nat);
    }
    let last_offset: u64 = ((npc_count - 1) * nodes_count) as u64;
    let mut j: usize = 0;
    while j < template.len()
        invariant
            j <= template.len(),
            npc_count > 0,
            last_offset == (npc_count - 1) * nodes_count,
            forall|k: int|
                0 <= k < j ==> (#[trigger] template@[k]).fits_shift(
                    (npc_count - 1) * nodes_count,
                ),
        decreases template.len() - j,
    {
        let c = &template[j];
        if last_offset > u32::MAX as u64 || c.node_a as u64 > u32::MAX as u64 - last_offset
            || c.node_b as u64 > u32::MAX as u64 - last_offset {
            assert(!c.fits_shift((npc_count - 1) * nodes_count));
            return false;
        }
        j = j + 1;
    }
    true
}

/// Law: the crowd's constraint buffer holds `npc_count` times as many
/// constraints as the template.
pub proof fn replicated_len(template: Seq<DistanceConstraints>, nodes_count: nat, npc_count: nat)
    ensures
        replicated(template, nodes_count, npc_count).len() == npc_count * template.len(),
    decreases npc_count,
{
    if npc_count > 0 {
        replicated_len(template, nodes_count, (npc_count - 1) as nat);
        assert((npc_count - 1) * template.len() + template.len() == npc_count * template.len())
            by (nonlinear_arith)
            requires
                npc_count > 0,
        ;
    } else {
        assert(0 * template.len() == 0) by (nonlinear_arith);
    }
}

/// Law: entry `k` of the crowd's constraint buffer is template constraint
/// `k % len` of NPC `k / len`, its particle indices moved up by that NPC's
/// first particle index `(k / len) * nodes_count`; its rest length and
/// stiffness are those of the template constraint.
pub proof fn replicated_entry(
    template: Seq<DistanceConstraints>,
    nodes_count: nat,
    npc_count: nat,
    k: int,
)
    requires
        0 <= k < npc_count * template.len(),
    ensures
        replicated(template, nodes_count, npc_count)[k] == template[k % template.len() as int].shifted(
            (k / template.len() as int) * nodes_count,
        ),
        replicated(template, nodes_count, npc_count)[k].rest_length_bits == template[k
            % template.len() as int].rest_length_bits,
        replicated(template, nodes_count, npc_count)[k].stiffness_bits == template[k
            % template.len() as int].stiffness_bits,
    decreases npc_count,
{
    let len = template.len() as int;
    if npc_count == 0 {
        assert(0 * template.len() == 0) by (nonlinear_arith);
    } else {
        let prev = (npc_count - 1) as nat;
        replicated_len(template, nodes_count, prev);
        assert(prev * len + len == npc_count * len) by (nonlinear_arith)
            requires
                prev == npc_count - 1,
        ;
        if k < prev * len {
            replicated_entry(template, nodes_count, prev, k);
        } else {
            let r = k - prev * len;
            assert(0 <= r < len);
            vstd::arithmetic::div_mod::lemma_fundamental_div_mod_converse(k, len, prev as int, r);
        }
    }
}

/// Law: when no index overflows, entry `k` of the crowd's buffer holds the
/// indices of template constraint `k % len` plus `(k / len) * nodes_count`,
/// exactly, and its rest length and stiffness unchanged.
pub proof fn replicated_entry_fields(
    template: Seq<DistanceConstraints>,
    nodes_count: nat,
    npc_count: nat,
    k: int,
)
    requires
        shifts_fit(template, nodes_count, npc_count),
        0 <= k < npc_count * template.len(),
    ensures
        ({
            let c = replicated(template, nodes_count, npc_count)[k];
            let t = template[k % template.len() as int];
            let offset = (k / template.len() as int) * nodes_count;
            &&& c.node_a == t.node_a + offset
            &&& c.node_b == t.node_b + offset
            &&& c.rest_length_bits == t.rest_length_bits
            &&& c.stiffness_bits == t.stiffness_bits
        }),
{
    let len = template.len() as int;
    replicated_entry(template, nodes_count, npc_count, k);
    assert(len > 0) by (nonlinear_arith)
        requires
            0 <= k < npc_count * len,
            len >= 0,
    ;
    let q = k / len;
    let j = k % len;
    vstd::arithmetic::div_mod::lemma_fundamental_div_mod(k, len);
    assert(0 <= q < npc_count) by (nonlinear_arith)
        requires
            0 <= k < npc_count * len,
            k == len * q + j,
            0 <= j < len,
            len > 0,
    ;
    lemma_offset_below(q as nat, npc_count, nodes_count);
    assert(template[j].fits_shift((npc_count - 1) * nodes_count));
}

/// Law: when the template's constraints link particles of one NPC only
/// (indices below `nodes_count`), every constraint of the crowd links two
/// particles of one and the same NPC: entry `k` stays within NPC
/// `k / len`'s particles `(k / len) * nodes_count .. (k / len + 1) * nodes_count`,
/// and so below the crowd's particle count `npc_count * nodes_count`.
pub proof fn replicated_stays_within_npc(
    template: Seq<DistanceConstraints>,
    nodes_count: nat,
    npc_count: nat,
    k: int,
)
    requires
        links_within(template, nodes_count as int),
        shifts_fit(template, nodes_count, npc_count),
        0 <= k < npc_count * template.len(),
    ensures
        ({
            let c = replicated(template, nodes_count, npc_count)[k];
            let first = (k / template.len() as int) * nodes_count;
            &&& first <= c.node_a < first + nodes_count
            &&& first <= c.node_b < first + nodes_count
            &&& c.node_a < npc_count * nodes_count
            &&& c.node_b < npc_count * nodes_count
        }),
{
    let len = template.len() as int;
    replicated_entry(template, nodes_count, npc_count, k);
    assert(len > 0) by (nonlinear_arith)
        requires
            0 <= k < npc_count * len,
            len >= 0,
    ;
    let q = k / len;
    let j = k % len;
    vstd::arithmetic::div_mod::lemma_fundamental_div_mod(k, len);
    assert(0 <= j < len);
    assert(0 <= q < npc_count) by (nonlinear_arith)
        requires
            0 <= k < npc_count * len,
            k == len * q + j,
            0 <= j < len,
            len > 0,
    ;
    let t = template[j];
    assert(t.within(nodes_count as int));
    lemma_offset_below(q as nat, npc_count, nodes_count);
    assert(t.fits_shift((npc_count - 1) * nodes_count));
}

/// Law: a template whose constraints stay within its `nodes_count`
/// particles can be replicated for any crowd whose particles can all be
/// indexed by `u32`.
pub proof fn within_template_shifts_fit(
    template: Seq<DistanceConstraints>,
    nodes_count: nat,
    npc_count: nat,
)
    requires
        links_within(template, nodes_count as int),
        npc_count * nodes_count <= u32::MAX + 1,
    ensures
        shifts_fit(template, nodes_count, npc_count),
{
    if npc_count > 0 {
        lemma_offset_below((npc_count - 1) as nat, npc_count, nodes_count);
        assert forall|j: int| 0 <= j < template.len() implies (#[trigger] template[j]).fits_shift(
            (npc_count - 1) * nodes_count,
        ) by {
            assert(template[j].within(nodes_count as int));
        }
    }
}

} // verus!
