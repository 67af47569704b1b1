//! The byte images of the GPU buffers that the library fills: the constraint
//! storage buffer and the indirect draw command.

use vstd::prelude::*;
use crate::constraint::DistanceConstraints;

verus! {

/// Arguments of one indexed indirect draw call, in the layout the GPU reads.
#[derive(Clone, Copy, Debug, PartialEq, Eq, Structural)]
pub struct DrawIndexedIndirectArgs {
    pub index_count: u32,
    pub instance_count: u32,
    pub first_index: u32,
    pub base_vertex: i32,
    pub first_instance: u32,
}

impl Default for DrawIndexedIndirectArgs {
    fn default() -> (args: DrawIndexedIndirectArgs)
        ensures
            args == (DrawIndexedIndirectArgs {
                index_count: 0,
                instance_count: 0,
                first_index: 0,
                base_vertex: 0,
                first_instance: 0,
            }),
    {
        DrawIndexedIndirectArgs {
            index_count: 0,
            instance_count: 0,
            first_index: 0,
            base_vertex: 0,
            first_instance: 0,
        }
    }
}

impl DrawIndexedIndirectArgs {
    /// The draw of a crowd: the template mesh's `index_count` indices, one
    /// instance per NPC (the NPC count taken as a `u32`), from the start of
    /// the index buffer and of the instances.
    pub fn for_population(index_count: u32, npc_count: usize) -> (args: DrawIndexedIndirectArgs)
        ensures
            args == (DrawIndexedIndirectArgs {
                index_count: index_count,
                instance_count: npc_count as u32,
                first_index: 0,
                base_vertex: 0,
                first_instance: 0,
            }),
    {
        DrawIndexedIndirectArgs {
            index_count,
            instance_count: npc_count as u32,
            first_index: 0,
            base_vertex: 0,
            first_instance: 0,
        }
    }

    /// The five 32-bit words of the command, in field order.
    pub open spec fn words(self) -> Seq<u32> {
        seq![
            self.index_count,
            self.instance_count,
            self.first_index,
            self.base_vertex as u32,
            self.first_instance,
        ]
    }

    /// The five 32-bit words of the command, in field order; the base vertex
    /// in two's complement.
    pub fn to_words(&self) -> (words: Vec<u32>)
        ensures
            words@ == self.words(),
            words.len() == 5,
            words@[0] == self.index_count,
            words@[1] == self.instance_count,
            words@[2] == self.first_index,
            words@[3] == self.base_vertex as u32,
            words@[4] == self.first_instance,
    {
        let mut words: Vec<u32> = Vec::with_capacity(5);
        words.push(self.index_count);
        words.push(self.instance_count);
        words.push(self.first_index);
        words.push(self.base_vertex as u32);
        words.push(self.first_instance);
        words
    }
}

/// The four 32-bit words of one constraint, in field order.
pub open spec fn constraint_record(c: DistanceConstraints) -> Seq<u32> {
    seq![c.node_a, c.node_b, c.rest_length_bits, c.stiffness_bits]
}

/// The words of a constraint buffer: the records one after the other.
pub open spec fn constraint_words(cs: Seq<DistanceConstraints>) -> Seq<u32>
    decreases cs.len(),
{
    if cs.len() == 0 {
        Seq::empty()
    } else {
        constraint_words(cs.drop_last()) + constraint_record(cs.last())
    }
}

/// One word as four bytes, least significant first.
pub open spec fn word_le(w: u32) -> Seq<u8> {
    seq![
        (w % 0x100) as u8,
        ((w / 0x100) % 0x100) as u8,
        ((w / 0x1_0000) % 0x100) as u8,
        (w / 0x100_0000) as u8,
    ]
}

/// One word as four bytes, most significant first.
pub open spec fn word_be(w: u32) -> Seq<u8> {
    seq![
        (w / 0x100_0000) as u8,
        ((w / 0x1_0000) % 0x100) as u8,
        ((w / 0x100) % 0x100) as u8,
        (w % 0x100) as u8,
    ]
}

/// Words as bytes, each word least significant byte first.
pub open spec fn le_bytes(words: Seq<u32>) -> Seq<u8>
    decreases words.len(),
{
    if words.len() == 0 {
        Seq::empty()
    } else {
        le_bytes(words.drop_last()) + word_le(words.last())
    }
}

/// Words as bytes, each word most significant byte first.
pub open spec fn be_bytes(words: Seq<u32>) -> Seq<u8>
    decreases words.len(),
{
    if words.len() == 0 {
        Seq::empty()
    } else {
        be_bytes(words.drop_last()) + word_be(words.last())
    }
}

/// The bytes of `words` in the machine's byte order: each word in its
/// little- or big-endian form, the same order for all words.
pub open spec fn native_bytes(bytes: Seq<u8>, words: Seq<u32>) -> bool {
    bytes == le_bytes(words) || bytes == be_bytes(words)
}

/// `bytemuck::cast_slice` from `u32` words to `u8`: the words' own memory
/// read as bytes, four per word. Its contract claims that the result is the
/// words in the machine's byte order (little- or big-endian, which one is
/// not stated: it depends on the machine). A cast to bytes never fails.
#[verifier::external_body]
fn words_as_bytes(words: &[u32]) -> (bytes: Vec<u8>)
    ensures
        native_bytes(bytes@, words@),
{
    bytemuck::cast_slice::<u32, u8>(words).to_vec()
}

/// The words of a constraint buffer, four per constraint in field order.
pub fn constraints_to_words(cs: &Vec<DistanceConstraints>) -> (words: Vec<u32>)
    requires
        cs.len() * 4 <= usize::MAX,
    ensures
        words@ == constraint_words(cs@),
        words.len() == 4 * cs.len(),
        forall|i: int|
            0 <= i < cs.len() ==> {
                &&& #[trigger] words@[4 * i] == cs@[i].node_a
                &&& words@[4 * i + 1] == cs@[i].node_b
                &&& words@[4 * i + 2] == cs@[i].rest_length_bits
                &&& words@[4 * i + 3] == cs@[i].stiffness_bits
            },
{
    let mut words: Vec<u32> = Vec::with_capacity(cs.len() * 4);
    let mut i: usize = 0;
    while i < cs.len()
        invariant
            i <= cs.len(),
            words@ == constraint_words(cs@.take(i as int)),
        decreases cs.len() - i,
    {
        let c = &cs[i];
        assert(cs@.take(i + 1).drop_last() =~= cs@.take(i as int));
        words.push(c.node_a);
        words.push(c.node_b);
        words.push(c.rest_length_bits);
        words.push(c.stiffness_bits);
        assert(words@ =~= constraint_words(cs@.take(i + 1)));
        i = i + 1;
    }
    assert(cs@.take(cs.len() as int) =~= cs@);
    proof {
        lemma_constraint_words_len(cs@);
        assert forall|i: int| 0 <= i < cs.len() implies {
            &&& #[trigger] words@[4 * i] == cs@[i].node_a
            &&& words@[4 * i + 1] == cs@[i].node_b
            &&& words@[4 * i + 2] == cs@[i].rest_length_bits
            &&& words@[4 * i + 3] == cs@[i].stiffness_bits
        } by {
            constraint_words_hold_fields(cs@, i);
        }
    }
    words
}

/// The byte image of the constraint storage buffer: each constraint's four
/// words in field order, in the machine's byte order (the `repr(C)` layout
/// of the GPU struct).
pub fn constraint_buffer_bytes(cs: &Vec<DistanceConstraints>) -> (bytes: Vec<u8>)
    requires
        cs.len() * 4 <= usize::MAX,
    ensures
        native_bytes(bytes@, constraint_words(cs@)),
{
    let words = constraints_to_words(cs);
    words_as_bytes(words.as_slice())
}

/// The byte image of the indirect draw buffer: the command's five words in
/// the machine's byte order.
pub fn indirect_buffer_bytes(args: &DrawIndexedIndirectArgs) -> (bytes: Vec<u8>)
    ensures
        native_bytes(bytes@, args.words()),
{
    let words = args.to_words();
    words_as_bytes(words.as_slice())
}

/// Law: a byte image in either byte order holds four bytes per word.
pub proof fn native_bytes_len(bytes: Seq<u8>, words: Seq<u32>)
    requires
        native_bytes(bytes, words),
    ensures
        bytes.len() == 4 * words.len(),
{
    lemma_le_len(words);
    lemma_be_len(words);
}

proof fn lemma_le_len(words: Seq<u32>)
    ensures
        le_bytes(words).len() == 4 * words.len(),
    decreases words.len(),
{
    if words.len() > 0 {
        lemma_le_len(words.drop_last());
    }
}

proof fn lemma_be_len(words: Seq<u32>)
    ensures
        be_bytes(words).len() == 4 * words.len(),
    decreases words.len(),
{
    if words.len() > 0 {
        lemma_be_len(words.drop_last());
    }
}

/// Law: constraint `i` of a buffer occupies words `4 * i .. 4 * i + 4`,
/// holding its two particle indices, its rest length and its stiffness.
pub proof fn constraint_record_at(cs: Seq<DistanceConstraints>, i: int)
    requires
        0 <= i < cs.len(),
    ensures
        constraint_words(cs).len() == 4 * cs.len(),
        constraint_words(cs).subrange(4 * i, 4 * i + 4) == constraint_record(cs[i]),
    decreases cs.len(),
{
    lemma_constraint_words_len(cs);
    let prev = cs.drop_last();
    lemma_constraint_words_len(prev);
    if i < cs.len() - 1 {
        constraint_record_at(prev, i);
        assert(constraint_words(cs).subrange(4 * i, 4 * i + 4) =~= constraint_words(
            prev,
        ).subrange(4 * i, 4 * i + 4));
    } else {
        assert(constraint_words(cs).subrange(4 * i, 4 * i + 4) =~= constraint_record(cs[i]));
    }
}

proof fn lemma_constraint_words_len(cs: Seq<DistanceConstraints>)
    ensures
        constraint_words(cs).len() == 4 * cs.len(),
    decreases cs.len(),
{
    if cs.len() > 0 {
        lemma_constraint_words_len(cs.drop_last());
    }
}

/// Law: the indirect command's words are its fields unchanged, in field
/// order, the base vertex in two's complement.
pub proof fn indirect_words_hold_fields(args: DrawIndexedIndirectArgs)
    ensures
        args.words().len() == 5,
        args.words()[0] == args.index_count,
        args.words()[1] == args.instance_count,
        args.words()[2] == args.first_index,
        args.words()[3] == args.base_vertex as u32,
        args.words()[4] == args.first_instance,
{
}

/// Law: a constraint buffer holds four words per constraint, and words
/// `4 * i .. 4 * i + 4` are constraint `i`'s two particle indices, rest
/// length bits and stiffness bits, unchanged.
pub proof fn constraint_words_hold_fields(cs: Seq<DistanceConstraints>, i: int)
    requires
        0 <= i < cs.len(),
    ensures
        constraint_words(cs).len() == 4 * cs.len(),
        constraint_words(cs)[4 * i] == cs[i].node_a,
        constraint_words(cs)[4 * i + 1] == cs[i].node_b,
        constraint_words(cs)[4 * i + 2] == cs[i].rest_length_bits,
        constraint_words(cs)[4 * i + 3] == cs[i].stiffness_bits,
{
    constraint_record_at(cs, i);
    let sub = constraint_words(cs).subrange(4 * i, 4 * i + 4);
    assert(sub[0] == constraint_words(cs)[4 * i]);
    assert(sub[1] == constraint_words(cs)[4 * i + 1]);
    assert(sub[2] == constraint_words(cs)[4 * i + 2]);
    assert(sub[3] == constraint_words(cs)[4 * i + 3]);
}

proof fn lemma_le_word_at(words: Seq<u32>, i: int)
    requires
        0 <= i < words.len(),
    ensures
        le_bytes(words).len() == 4 * words.len(),
        le_bytes(words).subrange(4 * i, 4 * i + 4) == word_le(words[i]),
    decreases words.len(),
{
    lemma_le_len(words);
    lemma_le_len(words.drop_last());
    if i < words.len() - 1 {
        lemma_le_word_at(words.drop_last(), i);
        assert(le_bytes(words).subrange(4 * i, 4 * i + 4) =~= le_bytes(
            words.drop_last(),
        ).subrange(4 * i, 4 * i + 4));
    } else {
        assert(le_bytes(words).subrange(4 * i, 4 * i + 4) =~= word_le(words[i]));
    }
}

proof fn lemma_be_word_at(words: Seq<u32>, i: int)
    requires
        0 <= i < words.len(),
    ensures
        be_bytes(words).len() == 4 * words.len(),
        be_bytes(words).subrange(4 * i, 4 * i + 4) == word_be(words[i]),
    decreases words.len(),
{
    lemma_be_len(words);
    lemma_be_len(words.drop_last());
    if i < words.len() - 1 {
        lemma_be_word_at(words.drop_last(), i);
        assert(be_bytes(words).subrange(4 * i, 4 * i + 4) =~= be_bytes(
            words.drop_last(),
        ).subrange(4 * i, 4 * i + 4));
    } else {
        assert(be_bytes(words).subrange(4 * i, 4 * i + 4) =~= word_be(words[i]));
    }
}

proof fn lemma_word_le_decodes(w: u32)
    ensures
        word_le(w)[0] + 0x100 * word_le(w)[1] + 0x1_0000 * word_le(w)[2] + 0x100_0000 * word_le(
            w,
        )[3] == w,
{
    let b0 = w % 0x100;
    let b1 = (w / 0x100) % 0x100;
    let b2 = (w / 0x1_0000) % 0x100;
    let b3 = w / 0x100_0000;
    assert(b3 < 0x100);
    assert(b0 + 0x100 * b1 + 0x1_0000 * b2 + 0x100_0000 * b3 == w);
}

proof fn lemma_word_be_decodes(w: u32)
    ensures
        word_be(w)[3] + 0x100 * word_be(w)[2] + 0x1_0000 * word_be(w)[1] + 0x100_0000 * word_be(
            w,
        )[0] == w,
{
    lemma_word_le_decodes(w);
}

/// Law: in a byte image, bytes `4 * i .. 4 * i + 4` are word `i` itself:
/// read least significant byte first (little-endian machine) or most
/// significant byte first (big-endian machine), they give back the word.
pub proof fn native_bytes_decode(bytes: Seq<u8>, words: Seq<u32>, i: int)
    requires
        native_bytes(bytes, words),
        0 <= i < words.len(),
    ensures
        bytes.len() == 4 * words.len(),
        bytes[4 * i] + 0x100 * bytes[4 * i + 1] + 0x1_0000 * bytes[4 * i + 2] + 0x100_0000 * bytes[4
            * i + 3] == words[i] || bytes[4 * i + 3] + 0x100 * bytes[4 * i + 2] + 0x1_0000 * bytes[4
            * i + 1] + 0x100_0000 * bytes[4 * i] == words[i],
{
    lemma_le_word_at(words, i);
    lemma_be_word_at(words, i);
    lemma_word_le_decodes(words[i]);
    lemma_word_be_decodes(words[i]);
    if bytes == le_bytes(words) {
        let sub = le_bytes(words).subrange(4 * i, 4 * i + 4);
        assert(sub[0] == bytes[4 * i] && sub[1] == bytes[4 * i + 1] && sub[2] == bytes[4 * i + 2]
            && sub[3] == bytes[4 * i + 3]);
    } else {
        let sub = be_bytes(words).subrange(4 * i, 4 * i + 4);
        assert(sub[0] == bytes[4 * i] && sub[1] == bytes[4 * i + 1] && sub[2] == bytes[4 * i + 2]
            && sub[3] == bytes[4 * i + 3]);
    }
}

} // verus!
