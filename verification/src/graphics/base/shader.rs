//! Shader reflection metadata and its byte format.
//!
//! The build step stores, next to each compiled shader, a metadata blob made of
//! little-endian 32-bit words:
//! `stage, binding_count, (set, binding, descriptor_type, count) * binding_count,
//!  push_constant_count, (offset, size) * push_constant_count`.
use vstd::prelude::*;

use super::words::{le_word, lemma_bytes_of_le_word, lemma_le_word_bound, lemma_le_word_of_bytes,
    push_le_u32, read_le_u32, u32_le_bytes};

verus! {

/// One descriptor binding a shader stage uses.
#[derive(Clone, Copy, Debug, PartialEq, Eq, Structural)]
pub struct BindingInfo {
    pub set: u32,
    pub binding: u32,
    /// Raw `VkDescriptorType`.
    pub descriptor_type: i32,
    /// Number of descriptors; 0 stands for a runtime-sized array.
    pub count: u32,
    /// Raw `VkShaderStageFlags` of the stage that uses the binding.
    pub stage: u32,
}

/// One push-constant range a shader stage uses.
#[derive(Clone, Copy, Debug, PartialEq, Eq, Structural)]
pub struct PushConstantInfo {
    pub offset: u32,
    pub size: u32,
    /// Raw `VkShaderStageFlags` of the stage that uses the range.
    pub stage: u32,
}

/// Reflection data of one compiled shader stage.
#[derive(Clone, Debug)]
pub struct ShaderMeta {
    /// Raw `VkShaderStageFlags` of the stage.
    pub stage: u32,
    pub bindings: Vec<BindingInfo>,
    pub push_constants: Vec<PushConstantInfo>,
}

/// The mathematical content of a [`ShaderMeta`].
pub struct ShaderMetaView {
    pub stage: u32,
    pub bindings: Seq<BindingInfo>,
    pub push_constants: Seq<PushConstantInfo>,
}

impl View for ShaderMeta {
    type V = ShaderMetaView;

    open spec fn view(&self) -> ShaderMetaView {
        ShaderMetaView {
            stage: self.stage,
            bindings: self.bindings@,
            push_constants: self.push_constants@,
        }
    }
}

impl Default for ShaderMeta {
    fn default() -> (m: Self)
        ensures
            m.stage == 0,
            m.bindings@.len() == 0,
            m.push_constants@.len() == 0,
    {
        ShaderMeta { stage: 0, bindings: Vec::new(), push_constants: Vec::new() }
    }
}

/// Number of bindings a metadata blob announces.
pub open spec fn meta_binding_count(s: Seq<u8>) -> int {
    le_word(s, 4)
}

/// Byte offset of the push-constant count in a metadata blob.
pub open spec fn meta_push_offset(s: Seq<u8>) -> int {
    8 + 16 * meta_binding_count(s)
}

/// Number of push-constant ranges a metadata blob announces.
pub open spec fn meta_push_count(s: Seq<u8>) -> int {
    le_word(s, meta_push_offset(s))
}

/// Number of bytes a metadata blob occupies.
pub open spec fn meta_len(s: Seq<u8>) -> int {
    meta_push_offset(s) + 4 + 8 * meta_push_count(s)
}

/// `s` starts with a complete metadata blob.
pub open spec fn meta_well_formed(s: Seq<u8>) -> bool {
    &&& s.len() >= 8
    &&& meta_push_offset(s) + 4 <= s.len()
    &&& meta_len(s) <= s.len()
}

/// The `k`-th binding record of a blob, tagged with the blob's stage.
pub open spec fn decode_binding(s: Seq<u8>, k: int, stage: u32) -> BindingInfo {
    BindingInfo {
        set: le_word(s, 8 + 16 * k) as u32,
        binding: le_word(s, 12 + 16 * k) as u32,
        descriptor_type: (le_word(s, 16 + 16 * k) as u32) as i32,
        count: le_word(s, 20 + 16 * k) as u32,
        stage,
    }
}

/// The `k`-th push-constant record of a blob, tagged with the blob's stage.
pub open spec fn decode_push_constant(s: Seq<u8>, k: int, stage: u32) -> PushConstantInfo {
    PushConstantInfo {
        offset: le_word(s, meta_push_offset(s) + 4 + 8 * k) as u32,
        size: le_word(s, meta_push_offset(s) + 8 + 8 * k) as u32,
        stage,
    }
}

/// The metadata a well-formed blob describes.
pub open spec fn decode_meta(s: Seq<u8>) -> ShaderMetaView {
    let stage = le_word(s, 0) as u32;
    ShaderMetaView {
        stage,
        bindings: Seq::new(meta_binding_count(s) as nat, |k: int| decode_binding(s, k, stage)),
        push_constants: Seq::new(
            meta_push_count(s) as nat,
            |k: int| decode_push_constant(s, k, stage),
        ),
    }
}

/// The bytes of one binding record.
pub open spec fn binding_bytes(b: BindingInfo) -> Seq<u8> {
    u32_le_bytes(b.set) + u32_le_bytes(b.binding) + u32_le_bytes(b.descriptor_type as u32)
        + u32_le_bytes(b.count)
}

/// The bytes of one push-constant record.
pub open spec fn push_constant_bytes(p: PushConstantInfo) -> Seq<u8> {
    u32_le_bytes(p.offset) + u32_le_bytes(p.size)
}

/// The binding records of `bs`, one after the other.
pub open spec fn bindings_bytes(bs: Seq<BindingInfo>) -> Seq<u8>
    decreases bs.len(),
{
    if bs.len() == 0 {
        seq![]
    } else {
        bindings_bytes(bs.drop_last()) + binding_bytes(bs.last())
    }
}

/// The push-constant records of `ps`, one after the other.
pub open spec fn push_constants_bytes(ps: Seq<PushConstantInfo>) -> Seq<u8>
    decreases ps.len(),
{
    if ps.len() == 0 {
        seq![]
    } else {
        push_constants_bytes(ps.drop_last()) + push_constant_bytes(ps.last())
    }
}

/// The blob that describes `v`.
#[verifier::opaque]
pub open spec fn encode_meta(v: ShaderMetaView) -> Seq<u8> {
    u32_le_bytes(v.stage) + u32_le_bytes(v.bindings.len() as u32) + bindings_bytes(v.bindings)
        + u32_le_bytes(v.push_constants.len() as u32) + push_constants_bytes(v.push_constants)
}

/// Every binding and push-constant range of `v` carries the stage of `v`, as
/// in metadata read from a blob.
pub open spec fn meta_stage_consistent(v: ShaderMetaView) -> bool {
    &&& forall|k: int| 0 <= k < v.bindings.len() ==> #[trigger] v.bindings[k].stage == v.stage
    &&& forall|k: int|
        0 <= k < v.push_constants.len() ==> #[trigger] v.push_constants[k].stage == v.stage
}

/// `v` has few enough records for its counts to fit in a 32-bit word.
pub open spec fn meta_counts_fit(v: ShaderMetaView) -> bool {
    v.bindings.len() <= u32::MAX && v.push_constants.len() <= u32::MAX
}

impl ShaderMeta {
    /// Reads the metadata blob at the start of `data`.
    pub fn deserialize(data: &[u8]) -> (m: Self)
        requires
            meta_well_formed(data@),
        ensures
            m@ == decode_meta(data@),
    {
        let ghost s = data@;
        proof {
            lemma_le_word_bound(s, 4);
            lemma_le_word_bound(s, meta_push_offset(s));
        }
        let n = data.len();
        let stage = read_le_u32(data, 0);
        let bindings_count = read_le_u32(data, 4);
        let mut cursor: usize = 8;
        let mut bindings: Vec<BindingInfo> = Vec::new();
        let mut k: u32 = 0;
        while k < bindings_count
            invariant
                s == data@,
                n == s.len(),
                meta_well_formed(s),
                stage == le_word(s, 0) as u32,
                bindings_count == meta_binding_count(s),
                k <= bindings_count,
                cursor == 8 + 16 * k,
                bindings@ =~= Seq::new(k as nat, |j: int| decode_binding(s, j, stage)),
            decreases bindings_count - k,
        {
            assert(cursor + 16 <= meta_push_offset(s));
            let set = read_le_u32(data, cursor);
            let binding = read_le_u32(data, cursor + 4);
            let descriptor_type = #[verifier::truncate] (read_le_u32(data, cursor + 8) as i32);
            let count = read_le_u32(data, cursor + 12);
            bindings.push(BindingInfo { set, binding, descriptor_type, count, stage });
            cursor = cursor + 16;
            k = k + 1;
        }
        let push_constants_count = read_le_u32(data, cursor);
        cursor = cursor + 4;
        let mut push_constants: Vec<PushConstantInfo> = Vec::new();
        let mut k: u32 = 0;
        while k < push_constants_count
            invariant
                s == data@,
                n == s.len(),
                meta_well_formed(s),
                push_constants_count == meta_push_count(s),
                k <= push_constants_count,
                cursor == meta_push_offset(s) + 4 + 8 * k,
                push_constants@ =~= Seq::new(
                    k as nat,
                    |j: int| decode_push_constant(s, j, stage),
                ),
            decreases push_constants_count - k,
        {
            assert(cursor + 8 <= meta_len(s));
            let offset = read_le_u32(data, cursor);
            let size = read_le_u32(data, cursor + 4);
            push_constants.push(PushConstantInfo { offset, size, stage });
            cursor = cursor + 8;
            k = k + 1;
        }
        ShaderMeta { stage, bindings, push_constants }
    }

    /// Writes the metadata blob that describes `self`, in the layout that
    /// [`ShaderMeta::deserialize`] reads.
    pub fn serialize(&self) -> (out: Vec<u8>)
        requires
            meta_counts_fit(self@),
        ensures
            out@ == encode_meta(self@),
    {
        let mut out: Vec<u8> = Vec::new();
        push_le_u32(&mut out, self.stage);
        push_le_u32(&mut out, self.bindings.len() as u32);
        let ghost head = out@;
        let mut i: usize = 0;
        while i < self.bindings.len()
            invariant
                i <= self.bindings@.len(),
                out@ == head + bindings_bytes(self.bindings@.take(i as int)),
            decreases self.bindings@.len() - i,
        {
            let b = self.bindings[i];
            push_le_u32(&mut out, b.set);
            push_le_u32(&mut out, b.binding);
            push_le_u32(&mut out, b.descriptor_type as u32);
            push_le_u32(&mut out, b.count);
            proof {
                assert(self.bindings@.take(i + 1).drop_last() =~= self.bindings@.take(i as int));
                assert(out@ =~= head + bindings_bytes(self.bindings@.take(i + 1)));
            }
            i = i + 1;
        }
        assert(self.bindings@.take(self.bindings@.len() as int) =~= self.bindings@);
        push_le_u32(&mut out, self.push_constants.len() as u32);
        let ghost head2 = out@;
        let mut i: usize = 0;
        while i < self.push_constants.len()
            invariant
                i <= self.push_constants@.len(),
                out@ == head2 + push_constants_bytes(self.push_constants@.take(i as int)),
            decreases self.push_constants@.len() - i,
        {
            let p = self.push_constants[i];
            push_le_u32(&mut out, p.offset);
            push_le_u32(&mut out, p.size);
            proof {
                assert(self.push_constants@.take(i + 1).drop_last() =~= self.push_constants@.take(
                    i as int,
                ));
                assert(out@ =~= head2 + push_constants_bytes(self.push_constants@.take(i + 1)));
            }
            i = i + 1;
        }
        assert(self.push_constants@.take(self.push_constants@.len() as int)
            =~= self.push_constants@);
        proof {
            reveal(encode_meta);
            assert(out@ =~= encode_meta(self@));
        }
        out
    }
}

proof fn lemma_word_at(s: Seq<u8>, i: int, x: u32)
    requires
        0 <= i,
        i + 4 <= s.len(),
        s.subrange(i, i + 4) == u32_le_bytes(x),
    ensures
        le_word(s, i) == x,
{
    lemma_le_word_of_bytes(x);
    assert(s[i] == s.subrange(i, i + 4)[0]);
    assert(s[i + 1] == s.subrange(i, i + 4)[1]);
    assert(s[i + 2] == s.subrange(i, i + 4)[2]);
    assert(s[i + 3] == s.subrange(i, i + 4)[3]);
}

proof fn lemma_i32_u32_roundtrip(d: i32)
    ensures
        ((d as u32) as i32) == d,
{
    assert(((d as u32) as i32) == d) by (bit_vector);
}

proof fn lemma_u32_i32_roundtrip(w: u32)
    ensures
        ((w as i32) as u32) == w,
{
    assert(((w as i32) as u32) == w) by (bit_vector);
}

/// The records of `bs` lie one after the other, 16 bytes each.
pub proof fn lemma_bindings_bytes(bs: Seq<BindingInfo>)
    ensures
        bindings_bytes(bs).len() == 16 * bs.len(),
        forall|k: int|
            0 <= k < bs.len() ==> bindings_bytes(bs).subrange(16 * k, 16 * k + 16)
                == binding_bytes(#[trigger] bs[k]),
    decreases bs.len(),
{
    if bs.len() > 0 {
        let init = bs.drop_last();
        lemma_bindings_bytes(init);
        let whole = bindings_bytes(bs);
        assert forall|k: int| 0 <= k < bs.len() implies whole.subrange(16 * k, 16 * k + 16)
            == binding_bytes(#[trigger] bs[k]) by {
            if k < bs.len() - 1 {
                assert(init[k] == bs[k]);
                assert(whole.subrange(16 * k, 16 * k + 16) =~= bindings_bytes(init).subrange(
                    16 * k,
                    16 * k + 16,
                ));
            } else {
                assert(whole.subrange(16 * k, 16 * k + 16) =~= binding_bytes(bs.last()));
            }
        }
    }
}

/// The records of `ps` lie one after the other, 8 bytes each.
pub proof fn lemma_push_constants_bytes(ps: Seq<PushConstantInfo>)
    ensures
        push_constants_bytes(ps).len() == 8 * ps.len(),
        forall|k: int|
            0 <= k < ps.len() ==> push_constants_bytes(ps).subrange(8 * k, 8 * k + 8)
                == push_constant_bytes(#[trigger] ps[k]),
    decreases ps.len(),
{
    if ps.len() > 0 {
        let init = ps.drop_last();
        lemma_push_constants_bytes(init);
        let whole = push_constants_bytes(ps);
        assert forall|k: int| 0 <= k < ps.len() implies whole.subrange(8 * k, 8 * k + 8)
            == push_constant_bytes(#[trigger] ps[k]) by {
            if k < ps.len() - 1 {
                assert(init[k] == ps[k]);
                assert(whole.subrange(8 * k, 8 * k + 8) =~= push_constants_bytes(init).subrange(
                    8 * k,
                    8 * k + 8,
                ));
            } else {
                assert(whole.subrange(8 * k, 8 * k + 8) =~= push_constant_bytes(ps.last()));
            }
        }
    }
}

proof fn lemma_encoded_layout(v: ShaderMetaView)
    requires
        meta_counts_fit(v),
    ensures
        encode_meta(v).len() == 12 + 16 * v.bindings.len() + 8 * v.push_constants.len(),
        le_word(encode_meta(v), 0) == v.stage,
        meta_binding_count(encode_meta(v)) == v.bindings.len(),
        meta_push_count(encode_meta(v)) == v.push_constants.len(),
        encode_meta(v).subrange(8, 8 + 16 * (v.bindings.len() as int)) == bindings_bytes(
            v.bindings,
        ),
        encode_meta(v).subrange(
            12 + 16 * (v.bindings.len() as int),
            12 + 16 * (v.bindings.len() as int) + 8 * (v.push_constants.len() as int),
        ) == push_constants_bytes(v.push_constants),
{
    reveal(encode_meta);
    let e = encode_meta(v);
    let nb = v.bindings.len() as int;
    let np = v.push_constants.len() as int;
    lemma_bindings_bytes(v.bindings);
    lemma_push_constants_bytes(v.push_constants);
    lemma_le_word_of_bytes(v.stage);
    lemma_le_word_of_bytes(nb as u32);
    lemma_le_word_of_bytes(np as u32);
    assert(e.subrange(0, 4) =~= u32_le_bytes(v.stage));
    lemma_word_at(e, 0, v.stage);
    assert(e.subrange(4, 8) =~= u32_le_bytes(nb as u32));
    lemma_word_at(e, 4, nb as u32);
    assert(e.subrange(8 + 16 * nb, 12 + 16 * nb) =~= u32_le_bytes(np as u32));
    lemma_word_at(e, 8 + 16 * nb, np as u32);
    assert(e.subrange(8, 8 + 16 * nb) =~= bindings_bytes(v.bindings));
    assert(e.subrange(12 + 16 * nb, 12 + 16 * nb + 8 * np) =~= push_constants_bytes(
        v.push_constants,
    ));
}

proof fn lemma_encoded_binding(v: ShaderMetaView, k: int)
    requires
        meta_counts_fit(v),
        0 <= k < v.bindings.len(),
    ensures
        decode_binding(encode_meta(v), k, v.bindings[k].stage) == v.bindings[k],
{
    let e = encode_meta(v);
    let nb = v.bindings.len() as int;
    lemma_encoded_layout(v);
    lemma_bindings_bytes(v.bindings);
    let b = v.bindings[k];
    let base = 8 + 16 * k;
    let bb = bindings_bytes(v.bindings);
    assert(e.subrange(base, base + 16) =~= bb.subrange(16 * k, 16 * k + 16)) by {
        assert(e.subrange(8, 8 + 16 * nb).subrange(16 * k, 16 * k + 16) =~= e.subrange(
            base,
            base + 16,
        ));
    }
    let r = binding_bytes(b);
    assert(e.subrange(base, base + 4) =~= r.subrange(0, 4));
    assert(e.subrange(base + 4, base + 8) =~= r.subrange(4, 8));
    assert(e.subrange(base + 8, base + 12) =~= r.subrange(8, 12));
    assert(e.subrange(base + 12, base + 16) =~= r.subrange(12, 16));
    assert(r.subrange(0, 4) =~= u32_le_bytes(b.set));
    assert(r.subrange(4, 8) =~= u32_le_bytes(b.binding));
    assert(r.subrange(8, 12) =~= u32_le_bytes(b.descriptor_type as u32));
    assert(r.subrange(12, 16) =~= u32_le_bytes(b.count));
    lemma_word_at(e, base, b.set);
    lemma_word_at(e, base + 4, b.binding);
    lemma_word_at(e, base + 8, b.descriptor_type as u32);
    lemma_word_at(e, base + 12, b.count);
    lemma_i32_u32_roundtrip(b.descriptor_type);
}

proof fn lemma_encoded_push_constant(v: ShaderMetaView, k: int)
    requires
        meta_counts_fit(v),
        0 <= k < v.push_constants.len(),
    ensures
        decode_push_constant(encode_meta(v), k, v.push_constants[k].stage)
            == v.push_constants[k],
{
    let e = encode_meta(v);
    let nb = v.bindings.len() as int;
    let np = v.push_constants.len() as int;
    lemma_encoded_layout(v);
    lemma_push_constants_bytes(v.push_constants);
    let p = v.push_constants[k];
    let start = 12 + 16 * nb;
    let base = start + 8 * k;
    let pb = push_constants_bytes(v.push_constants);
    assert(e.subrange(base, base + 8) =~= pb.subrange(8 * k, 8 * k + 8)) by {
        assert(e.subrange(start, start + 8 * np).subrange(8 * k, 8 * k + 8) =~= e.subrange(
            base,
            base + 8,
        ));
    }
    let r = push_constant_bytes(p);
    assert(e.subrange(base, base + 4) =~= r.subrange(0, 4));
    assert(e.subrange(base + 4, base + 8) =~= r.subrange(4, 8));
    assert(r.subrange(0, 4) =~= u32_le_bytes(p.offset));
    assert(r.subrange(4, 8) =~= u32_le_bytes(p.size));
    lemma_word_at(e, base, p.offset);
    lemma_word_at(e, base + 4, p.size);
}

/// Reading back the blob written for `v` gives `v`: every binding and
/// push-constant range, in order, with the stage of the blob.
pub proof fn lemma_deserialize_serialize(v: ShaderMetaView)
    requires
        meta_counts_fit(v),
        meta_stage_consistent(v),
    ensures
        meta_well_formed(encode_meta(v)),
        meta_len(encode_meta(v)) == encode_meta(v).len(),
        decode_meta(encode_meta(v)) == v,
{
    let e = encode_meta(v);
    lemma_encoded_layout(v);
    let d = decode_meta(e);
    assert forall|k: int| 0 <= k < v.bindings.len() implies #[trigger] d.bindings[k]
        == v.bindings[k] by {
        lemma_encoded_binding(v, k);
    }
    assert forall|k: int| 0 <= k < v.push_constants.len() implies #[trigger] d.push_constants[k]
        == v.push_constants[k] by {
        lemma_encoded_push_constant(v, k);
    }
    assert(d.bindings =~= v.bindings);
    assert(d.push_constants =~= v.push_constants);
}

proof fn lemma_decoded_binding_bytes(s: Seq<u8>, k: int, stage: u32)
    requires
        0 <= k,
        24 + 16 * k <= s.len(),
    ensures
        binding_bytes(decode_binding(s, k, stage)) =~= s.subrange(8 + 16 * k, 24 + 16 * k),
{
    let base = 8 + 16 * k;
    lemma_bytes_of_le_word(s, base);
    lemma_bytes_of_le_word(s, base + 4);
    lemma_bytes_of_le_word(s, base + 8);
    lemma_bytes_of_le_word(s, base + 12);
    lemma_u32_i32_roundtrip(le_word(s, base + 8) as u32);
    let b = decode_binding(s, k, stage);
    assert(u32_le_bytes(b.descriptor_type as u32) == u32_le_bytes(le_word(s, base + 8) as u32));
    assert(s.subrange(base, base + 16) =~= s.subrange(base, base + 4) + s.subrange(
        base + 4,
        base + 8,
    ) + s.subrange(base + 8, base + 12) + s.subrange(base + 12, base + 16));
}

proof fn lemma_decoded_bindings_bytes(s: Seq<u8>, n: int, stage: u32)
    requires
        0 <= n,
        8 + 16 * n <= s.len(),
    ensures
        bindings_bytes(Seq::new(n as nat, |k: int| decode_binding(s, k, stage))) =~= s.subrange(
            8,
            8 + 16 * n,
        ),
    decreases n,
{
    let bs = Seq::new(n as nat, |k: int| decode_binding(s, k, stage));
    if n > 0 {
        let init = Seq::new((n - 1) as nat, |k: int| decode_binding(s, k, stage));
        assert(bs.drop_last() =~= init);
        lemma_decoded_bindings_bytes(s, n - 1, stage);
        lemma_decoded_binding_bytes(s, n - 1, stage);
        assert(bs.last() == decode_binding(s, n - 1, stage));
    }
}

proof fn lemma_decoded_push_constants_bytes(s: Seq<u8>, n: int, stage: u32)
    requires
        0 <= n,
        meta_push_offset(s) + 4 + 8 * n <= s.len(),
        0 <= meta_push_offset(s),
    ensures
        push_constants_bytes(Seq::new(n as nat, |k: int| decode_push_constant(s, k, stage)))
            =~= s.subrange(meta_push_offset(s) + 4, meta_push_offset(s) + 4 + 8 * n),
    decreases n,
{
    let ps = Seq::new(n as nat, |k: int| decode_push_constant(s, k, stage));
    if n > 0 {
        let init = Seq::new((n - 1) as nat, |k: int| decode_push_constant(s, k, stage));
        assert(ps.drop_last() =~= init);
        lemma_decoded_push_constants_bytes(s, n - 1, stage);
        let base = meta_push_offset(s) + 4 + 8 * (n - 1);
        lemma_bytes_of_le_word(s, base);
        lemma_bytes_of_le_word(s, base + 4);
        assert(push_constant_bytes(ps.last()) =~= s.subrange(base, base + 8));
    }
}

/// Writing back the metadata read from a well-formed blob gives the blob's
/// bytes, up to its end.
pub proof fn lemma_serialize_deserialize(s: Seq<u8>)
    requires
        meta_well_formed(s),
    ensures
        meta_counts_fit(decode_meta(s)),
        meta_stage_consistent(decode_meta(s)),
        encode_meta(decode_meta(s)) =~= s.subrange(0, meta_len(s)),
{
    let d = decode_meta(s);
    lemma_le_word_bound(s, 4);
    lemma_le_word_bound(s, meta_push_offset(s));
    let nb = meta_binding_count(s);
    let np = meta_push_count(s);
    lemma_bytes_of_le_word(s, 0);
    lemma_bytes_of_le_word(s, 4);
    lemma_bytes_of_le_word(s, meta_push_offset(s));
    lemma_decoded_bindings_bytes(s, nb, d.stage);
    lemma_decoded_push_constants_bytes(s, np, d.stage);
    reveal(encode_meta);
    assert(d.bindings.len() as u32 == le_word(s, 4) as u32);
    assert(d.push_constants.len() as u32 == le_word(s, meta_push_offset(s)) as u32);
}

} // verus!
