//! Pipeline layouts derived from the reflection data of shader stages, and the
//! builder of compute pipelines.
use vstd::prelude::*;

use super::shader::{BindingInfo, PushConstantInfo, ShaderMeta, meta_well_formed, decode_meta};
use super::words::{le_word, read_le_u32};

verus! {

/// One binding of a descriptor set layout.
#[derive(Clone, Copy, Debug, PartialEq, Eq, Structural)]
pub struct LayoutBinding {
    pub binding: u32,
    /// Raw `VkDescriptorType`.
    pub descriptor_type: i32,
    pub descriptor_count: u32,
    /// Raw `VkShaderStageFlags`: every stage that uses the binding.
    pub stage_flags: u32,
}

/// One push-constant range of a pipeline layout.
#[derive(Clone, Copy, Debug, PartialEq, Eq, Structural)]
pub struct PushConstantRange {
    /// Raw `VkShaderStageFlags`.
    pub stage_flags: u32,
    pub offset: u32,
    pub size: u32,
}

/// What a pipeline layout is made of: the bindings of each descriptor set
/// layout, for the sets `0..set_layouts.len()`, and the push-constant ranges.
pub struct PipelineLayoutPlan {
    pub set_layouts: Vec<Vec<LayoutBinding>>,
    pub push_constant_ranges: Vec<PushConstantRange>,
}

/// A binding after merging all stages: the first stage's type and count, and
/// the union of the stages' flags.
#[derive(Clone, Copy)]
struct MergedEntry {
    set: u32,
    binding: u32,
    descriptor_type: i32,
    count: u32,
    stage_flags: u32,
}

/// The `(set, binding)` key of a binding.
pub open spec fn binding_key(b: BindingInfo) -> (u32, u32) {
    (b.set, b.binding)
}

/// Lexicographic order on `(set, binding)` keys.
pub open spec fn key_lt(a: (u32, u32), b: (u32, u32)) -> bool {
    a.0 < b.0 || (a.0 == b.0 && a.1 < b.1)
}

/// Adds one binding to a merged table: a new key takes the binding's type,
/// count and stage; a known key keeps its type and count and gains the stage.
pub open spec fn merge_step(m: Map<(u32, u32), (i32, u32, u32)>, b: BindingInfo) -> Map<
    (u32, u32),
    (i32, u32, u32),
> {
    let k = binding_key(b);
    if m.contains_key(k) {
        m.insert(k, (m[k].0, m[k].1, m[k].2 | b.stage))
    } else {
        m.insert(k, (b.descriptor_type, b.count, b.stage))
    }
}

/// The table of all bindings of `bs`, merged by `(set, binding)` in order.
pub open spec fn merged_bindings(bs: Seq<BindingInfo>) -> Map<(u32, u32), (i32, u32, u32)>
    decreases bs.len(),
{
    if bs.len() == 0 {
        Map::empty()
    } else {
        merge_step(merged_bindings(bs.drop_last()), bs.last())
    }
}

/// The bindings of all stages, stage after stage.
pub open spec fn stage_bindings(stages: Seq<ShaderMeta>) -> Seq<BindingInfo>
    decreases stages.len(),
{
    if stages.len() == 0 {
        seq![]
    } else {
        stage_bindings(stages.drop_last()) + stages.last().bindings@
    }
}

/// The push-constant ranges of all stages, stage after stage.
pub open spec fn stage_push_constants(stages: Seq<ShaderMeta>) -> Seq<PushConstantInfo>
    decreases stages.len(),
{
    if stages.len() == 0 {
        seq![]
    } else {
        stage_push_constants(stages.drop_last()) + stages.last().push_constants@
    }
}

/// The layout binding made from a merged entry; a count of 0 (a runtime-sized
/// array) becomes 1.
pub open spec fn layout_binding(binding: u32, e: (i32, u32, u32)) -> LayoutBinding {
    LayoutBinding {
        binding,
        descriptor_type: e.0,
        descriptor_count: if e.1 == 0 { 1 } else { e.1 },
        stage_flags: e.2,
    }
}

/// The pipeline-layout range of a push-constant range.
pub open spec fn push_constant_range(p: PushConstantInfo) -> PushConstantRange {
    PushConstantRange { stage_flags: p.stage, offset: p.offset, size: p.size }
}

/// `l` lists, by increasing binding number, exactly the bindings of set `s` in `m`.
pub open spec fn set_layout_matches(
    m: Map<(u32, u32), (i32, u32, u32)>,
    s: u32,
    l: Seq<LayoutBinding>,
) -> bool {
    &&& forall|i: int, j: int| 0 <= i < j < l.len() ==> l[i].binding < l[j].binding
    &&& forall|j: int|
        0 <= j < l.len() ==> m.contains_key((s, #[trigger] l[j].binding)) && l[j]
            == layout_binding(l[j].binding, m[(s, l[j].binding)])
    &&& forall|b: u32| #[trigger] m.contains_key((s, b)) ==> exists|j: int| 0 <= j < l.len() && l[j].binding == b
}

/// `n` is one more than the largest set number in `m`, or 1 when `m` is empty.
pub open spec fn set_count_matches(m: Map<(u32, u32), (i32, u32, u32)>, n: int) -> bool {
    &&& n >= 1
    &&& forall|k: (u32, u32)| #[trigger] m.contains_key(k) ==> k.0 < n
    &&& n == 1 || exists|k: (u32, u32)| #[trigger] m.contains_key(k) && k.0 == n - 1
}

spec fn entry_key(e: MergedEntry) -> (u32, u32) {
    (e.set, e.binding)
}

spec fn entry_value(e: MergedEntry) -> (i32, u32, u32) {
    (e.descriptor_type, e.count, e.stage_flags)
}

/// `es` holds the table `m`, one entry per key, in increasing key order.
spec fn represents(es: Seq<MergedEntry>, m: Map<(u32, u32), (i32, u32, u32)>) -> bool {
    &&& forall|i: int, j: int|
        0 <= i < j < es.len() ==> key_lt(entry_key(#[trigger] es[i]), entry_key(#[trigger] es[j]))
    &&& forall|i: int|
        0 <= i < es.len() ==> m.contains_key(entry_key(#[trigger] es[i])) && m[entry_key(es[i])]
            == entry_value(es[i])
    &&& forall|k: (u32, u32)| #[trigger] m.contains_key(k) ==> exists|i: int| 0 <= i < es.len() && entry_key(es[i]) == k
}

fn merge_one(es: &mut Vec<MergedEntry>, b: BindingInfo, Ghost(m): Ghost<Map<(u32, u32), (i32, u32, u32)>>)
    requires
        represents(old(es)@, m),
    ensures
        represents(final(es)@, merge_step(m, b)),
{
    let n = es.len();
    let mut i: usize = 0;
    while i < n
        invariant
            n == es@.len(),
            i <= n,
            forall|j: int| 0 <= j < i ==> key_lt(entry_key(#[trigger] es@[j]), binding_key(b)),
        ensures
            i <= n,
            forall|j: int| 0 <= j < i ==> key_lt(entry_key(#[trigger] es@[j]), binding_key(b)),
            i < n ==> !key_lt(entry_key(es@[i as int]), binding_key(b)),
        decreases n - i,
    {
        let e = es[i];
        if e.set < b.set || (e.set == b.set && e.binding < b.binding) {
            i = i + 1;
        } else {
            break;
        }
    }
    let ghost old_es = es@;
    let k = (b.set, b.binding);
    if i < n && es[i].set == b.set && es[i].binding == b.binding {
        let e = es[i];
        let updated = MergedEntry {
            set: e.set,
            binding: e.binding,
            descriptor_type: e.descriptor_type,
            count: e.count,
            stage_flags: e.stage_flags | b.stage,
        };
        es.set(i, updated);
        proof {
            let m2 = merge_step(m, b);
            assert(m.contains_key(binding_key(b)));
            assert forall|j: int| 0 <= j < es@.len() implies m2.contains_key(
                entry_key(#[trigger] es@[j]),
            ) && m2[entry_key(es@[j])] == entry_value(es@[j]) by {
                if j != i {
                    assert(es@[j] == old_es[j]);
                    assert(entry_key(old_es[j]) != binding_key(b)) by {
                        if j < i {
                        } else {
                            assert(key_lt(entry_key(old_es[i as int]), entry_key(old_es[j])));
                        }
                    }
                }
            }
            assert forall|kk: (u32, u32)| #[trigger] m2.contains_key(kk) implies exists|j: int|
                0 <= j < es@.len() && entry_key(es@[j]) == kk by {
                let j = choose|j: int| 0 <= j < old_es.len() && entry_key(old_es[j]) == kk;
                assert(entry_key(es@[j]) == kk);
            }
            assert forall|x: int, y: int| 0 <= x < y < es@.len() implies key_lt(
                entry_key(#[trigger] es@[x]),
                entry_key(#[trigger] es@[y]),
            ) by {
                assert(entry_key(es@[x]) == entry_key(old_es[x]));
                assert(entry_key(es@[y]) == entry_key(old_es[y]));
            }
        }
    } else {
        let fresh = MergedEntry {
            set: b.set,
            binding: b.binding,
            descriptor_type: b.descriptor_type,
            count: b.count,
            stage_flags: b.stage,
        };
        proof {
            assert forall|j: int| i <= j < n implies key_lt(
                binding_key(b),
                entry_key(#[trigger] old_es[j]),
            ) by {
                if j > i {
                    assert(key_lt(entry_key(old_es[i as int]), entry_key(old_es[j])));
                }
            }
            assert(!m.contains_key(binding_key(b))) by {
                if m.contains_key(binding_key(b)) {
                    let j = choose|j: int|
                        0 <= j < old_es.len() && entry_key(old_es[j]) == binding_key(b);
                    if j < i {
                    } else {
                    }
                }
            }
        }
        es.insert(i, fresh);
        proof {
            let m2 = merge_step(m, b);
            assert(es@ == old_es.insert(i as int, fresh));
            assert forall|j: int| 0 <= j < es@.len() implies m2.contains_key(
                entry_key(#[trigger] es@[j]),
            ) && m2[entry_key(es@[j])] == entry_value(es@[j]) by {
                if j < i {
                    assert(es@[j] == old_es[j]);
                } else if j > i {
                    assert(es@[j] == old_es[j - 1]);
                }
            }
            assert forall|kk: (u32, u32)| #[trigger] m2.contains_key(kk) implies exists|j: int|
                0 <= j < es@.len() && entry_key(es@[j]) == kk by {
                if kk == binding_key(b) {
                    assert(entry_key(es@[i as int]) == kk);
                } else {
                    let j = choose|j: int| 0 <= j < old_es.len() && entry_key(old_es[j]) == kk;
                    if j < i {
                        assert(entry_key(es@[j]) == kk);
                    } else {
                        assert(entry_key(es@[j + 1]) == kk);
                    }
                }
            }
            assert forall|x: int, y: int| 0 <= x < y < es@.len() implies key_lt(
                entry_key(#[trigger] es@[x]),
                entry_key(#[trigger] es@[y]),
            ) by {
                if y < i {
                    assert(es@[x] == old_es[x]);
                    assert(es@[y] == old_es[y]);
                } else if y == i {
                    assert(es@[x] == old_es[x]);
                } else if x == i {
                    assert(es@[y] == old_es[y - 1]);
                } else if x < i {
                    assert(es@[x] == old_es[x]);
                    assert(es@[y] == old_es[y - 1]);
                } else {
                    assert(es@[x] == old_es[x - 1]);
                    assert(es@[y] == old_es[y - 1]);
                }
            }
        }
    }
}

fn merge_stages(stages: &[ShaderMeta]) -> (es: Vec<MergedEntry>)
    ensures
        represents(es@, merged_bindings(stage_bindings(stages@))),
{
    let mut es: Vec<MergedEntry> = Vec::new();
    let mut si: usize = 0;
    proof {
        assert(stages@.take(0) =~= Seq::<ShaderMeta>::empty());
    }
    while si < stages.len()
        invariant
            si <= stages@.len(),
            represents(es@, merged_bindings(stage_bindings(stages@.take(si as int)))),
        decreases stages@.len() - si,
    {
        let bs = &stages[si].bindings;
        let ghost prefix = stage_bindings(stages@.take(si as int));
        let mut j: usize = 0;
        proof {
            assert(prefix + bs@.take(0) =~= prefix);
        }
        while j < bs.len()
            invariant
                j <= bs@.len(),
                represents(es@, merged_bindings(prefix + bs@.take(j as int))),
            decreases bs@.len() - j,
        {
            let ghost before = prefix + bs@.take(j as int);
            merge_one(&mut es, bs[j], Ghost(merged_bindings(before)));
            proof {
                let after = prefix + bs@.take(j + 1);
                assert(after.drop_last() =~= before);
                assert(after.last() == bs@[j as int]);
            }
            j = j + 1;
        }
        proof {
            assert(bs@.take(bs@.len() as int) =~= bs@);
            let next = stages@.take(si + 1);
            assert(next.drop_last() =~= stages@.take(si as int));
            assert(next.last() == stages@[si as int]);
        }
        si = si + 1;
    }
    proof {
        assert(stages@.take(stages@.len() as int) =~= stages@);
    }
    es
}

fn collect_set(es: &Vec<MergedEntry>, s: u32, Ghost(m): Ghost<Map<(u32, u32), (i32, u32, u32)>>) -> (l: Vec<LayoutBinding>)
    requires
        represents(es@, m),
    ensures
        set_layout_matches(m, s, l@),
{
    let mut l: Vec<LayoutBinding> = Vec::new();
    let ghost mut src: Seq<int> = seq![];
    let n = es.len();
    let mut i: usize = 0;
    while i < n
        invariant
            n == es@.len(),
            i <= n,
            represents(es@, m),
            l@.len() == src.len(),
            forall|j: int|
                0 <= j < src.len() ==> 0 <= #[trigger] src[j] < i && es@[src[j]].set == s
                    && l@[j] == layout_binding(es@[src[j]].binding, entry_value(es@[src[j]])),
            forall|a: int, b: int| 0 <= a < b < src.len() ==> src[a] < src[b],
            forall|t: int| 0 <= t < i && (#[trigger] es@[t]).set == s ==> exists|j: int| 0 <= j < src.len() && src[j] == t,
        decreases n - i,
    {
        let e = es[i];
        if e.set == s {
            let count = if e.count == 0 { 1 } else { e.count };
            l.push(LayoutBinding {
                binding: e.binding,
                descriptor_type: e.descriptor_type,
                descriptor_count: count,
                stage_flags: e.stage_flags,
            });
            proof {
                let old_src = src;
                src = src.push(i as int);
                assert forall|t: int| 0 <= t < i + 1 && (#[trigger] es@[t]).set == s implies exists|j: int| 0 <= j < src.len() && src[j] == t by {
                    if t == i {
                        assert(src[old_src.len() as int] == t);
                    } else {
                        let j = choose|j: int| 0 <= j < old_src.len() && old_src[j] == t;
                        assert(src[j] == t);
                    }
                }
            }
        }
        i = i + 1;
    }
    proof {
        assert forall|a: int, b: int| 0 <= a < b < l@.len() implies l@[a].binding < l@[b].binding by {
            assert(key_lt(entry_key(es@[src[a]]), entry_key(es@[src[b]])));
        }
        assert forall|j: int| 0 <= j < l@.len() implies m.contains_key((s, #[trigger] l@[j].binding))
            && l@[j] == layout_binding(l@[j].binding, m[(s, l@[j].binding)]) by {
            let t = src[j];
            assert(entry_key(es@[t]) == (s, l@[j].binding));
        }
        assert forall|b: u32| #[trigger] m.contains_key((s, b)) implies exists|j: int|
            0 <= j < l@.len() && l@[j].binding == b by {
            let t = choose|t: int| 0 <= t < es@.len() && entry_key(es@[t]) == (s, b);
            assert(es@[t].set == s);
            let j = choose|j: int| 0 <= j < src.len() && src[j] == t;
            assert(l@[j].binding == b);
        }
    }
    l
}

/// The descriptor set layouts and push-constant ranges of a pipeline whose
/// stages have the reflection data `stages`.
///
/// Bindings are merged by `(set, binding)`: the first stage to use a key
/// fixes its descriptor type and count, and the stage flags of every stage
/// that uses it are joined. Every set from 0 up to the largest set used gets
/// a layout (an empty one where no stage uses the set), listing its bindings
/// by increasing number; push-constant ranges are kept as the stages list them.
pub fn plan_layouts(stages: &[ShaderMeta]) -> (plan: PipelineLayoutPlan)
    ensures
        set_count_matches(
            merged_bindings(stage_bindings(stages@)),
            plan.set_layouts@.len() as int,
        ),
        forall|s: int|
            0 <= s < plan.set_layouts@.len() ==> set_layout_matches(
                merged_bindings(stage_bindings(stages@)),
                s as u32,
                #[trigger] plan.set_layouts@[s]@,
            ),
        plan.push_constant_ranges@ == stage_push_constants(stages@).map_values(
            |p: PushConstantInfo| push_constant_range(p),
        ),
{
    let ghost m = merged_bindings(stage_bindings(stages@));
    let es = merge_stages(stages);
    let max_set: u32 = if es.len() == 0 {
        0
    } else {
        es[es.len() - 1].set
    };
    proof {
        assert forall|k: (u32, u32)| #[trigger] m.contains_key(k) implies k.0 < max_set + 1 by {
            let t = choose|t: int| 0 <= t < es@.len() && entry_key(es@[t]) == k;
            if t < es@.len() - 1 {
                assert(key_lt(entry_key(es@[t]), entry_key(es@[es@.len() - 1])));
            }
        }
        if es@.len() > 0 {
            let last = es@[es@.len() - 1];
            assert(m.contains_key(entry_key(last)));
        }
    }
    let mut set_layouts: Vec<Vec<LayoutBinding>> = Vec::new();
    let mut s: u32 = 0;
    loop
        invariant_except_break
            s <= max_set,
            set_layouts@.len() == s,
        invariant
            represents(es@, m),
            forall|t: int| 0 <= t < set_layouts@.len() ==> set_layout_matches(m, t as u32, #[trigger] set_layouts@[t]@),
        ensures
            set_layouts@.len() == max_set + 1,
        decreases max_set - s,
    {
        let l = collect_set(&es, s, Ghost(m));
        set_layouts.push(l);
        if s == max_set {
            break;
        }
        s = s + 1;
    }
    let mut push_constant_ranges: Vec<PushConstantRange> = Vec::new();
    let mut si: usize = 0;
    proof {
        assert(stages@.take(0) =~= Seq::<ShaderMeta>::empty());
    }
    while si < stages.len()
        invariant
            si <= stages@.len(),
            push_constant_ranges@ == stage_push_constants(stages@.take(si as int)).map_values(
                |p: PushConstantInfo| push_constant_range(p),
            ),
        decreases stages@.len() - si,
    {
        let ps = &stages[si].push_constants;
        let ghost prefix = stage_push_constants(stages@.take(si as int));
        let mut j: usize = 0;
        proof {
            assert(prefix + ps@.take(0) =~= prefix);
        }
        while j < ps.len()
            invariant
                j <= ps@.len(),
                push_constant_ranges@ == (prefix + ps@.take(j as int)).map_values(
                    |p: PushConstantInfo| push_constant_range(p),
                ),
            decreases ps@.len() - j,
        {
            let p = ps[j];
            push_constant_ranges.push(PushConstantRange {
                stage_flags: p.stage,
                offset: p.offset,
                size: p.size,
            });
            proof {
                assert((prefix + ps@.take(j + 1)) =~= (prefix + ps@.take(j as int)).push(p));
                assert(push_constant_ranges@ =~= (prefix + ps@.take(j + 1)).map_values(
                    |p: PushConstantInfo| push_constant_range(p),
                ));
            }
            j = j + 1;
        }
        proof {
            assert(ps@.take(ps@.len() as int) =~= ps@);
            let next = stages@.take(si + 1);
            assert(next.drop_last() =~= stages@.take(si as int));
            assert(next.last() == stages@[si as int]);
        }
        si = si + 1;
    }
    proof {
        assert(stages@.take(stages@.len() as int) =~= stages@);
    }
    PipelineLayoutPlan { set_layouts, push_constant_ranges }
}

/// The 32-bit code words of a SPIR-V module stored as little-endian bytes;
/// trailing bytes that do not fill a word are dropped.
pub fn shader_code(spv: &[u8]) -> (code: Vec<u32>)
    ensures
        code@.len() == spv@.len() / 4,
        forall|i: int| 0 <= i < code@.len() ==> #[trigger] code@[i] == le_word(spv@, 4 * i),
{
    let len = spv.len();
    let n = len / 4;
    assert(4 * n <= len) by (nonlinear_arith)
        requires
            n == len / 4,
    ;
    let mut code: Vec<u32> = Vec::new();
    let mut i: usize = 0;
    while i < n
        invariant
            n == spv@.len() / 4,
            4 * n <= spv@.len(),
            len == spv@.len(),
            i <= n,
            code@.len() == i,
            forall|j: int| 0 <= j < i ==> #[trigger] code@[j] == le_word(spv@, 4 * j),
        decreases n - i,
    {
        code.push(read_le_u32(spv, 4 * i));
        i = i + 1;
    }
    code
}

/// The SPIR-V code and reflection data of one shader stage.
pub struct ShaderStage {
    pub spv: Vec<u8>,
    pub meta: ShaderMeta,
}

/// What a compute pipeline is built from: its shader code, run from the entry
/// point `main` in the compute stage, and its layout.
pub struct ComputePipelinePlan {
    pub code: Vec<u32>,
    pub layout: PipelineLayoutPlan,
}

/// Collects the shader of a compute pipeline.
pub struct ComputePipelineBuilder {
    stage: ShaderStage,
}

impl ComputePipelineBuilder {
    pub closed spec fn spv(&self) -> Seq<u8> {
        self.stage.spv@
    }

    pub closed spec fn meta(&self) -> ShaderMeta {
        self.stage.meta
    }

    /// A builder with an empty shader.
    pub fn new() -> (b: Self)
        ensures
            b.spv().len() == 0,
            b.meta().stage == 0,
            b.meta().bindings@.len() == 0,
            b.meta().push_constants@.len() == 0,
    {
        ComputePipelineBuilder { stage: ShaderStage { spv: Vec::new(), meta: ShaderMeta::default() } }
    }

    /// Sets the shader: its SPIR-V bytes and its metadata blob.
    pub fn shader(self, spv: &[u8], meta: &[u8]) -> (b: Self)
        requires
            meta_well_formed(meta@),
        ensures
            b.spv() == spv@,
            b.meta()@ == decode_meta(meta@),
    {
        ComputePipelineBuilder {
            stage: ShaderStage { spv: vstd::slice::slice_to_vec(spv), meta: ShaderMeta::deserialize(meta) },
        }
    }

    /// The code and layout of the pipeline.
    pub fn build(self) -> (plan: ComputePipelinePlan)
        ensures
            plan.code@.len() == self.spv().len() / 4,
            forall|i: int| 0 <= i < plan.code@.len() ==> #[trigger] plan.code@[i] == le_word(self.spv(), 4 * i),
            set_count_matches(
                merged_bindings(self.meta().bindings@),
                plan.layout.set_layouts@.len() as int,
            ),
            forall|s: int|
                0 <= s < plan.layout.set_layouts@.len() ==> set_layout_matches(
                    merged_bindings(self.meta().bindings@),
                    s as u32,
                    #[trigger] plan.layout.set_layouts@[s]@,
                ),
            plan.layout.push_constant_ranges@ == self.meta().push_constants@.map_values(
                |p: PushConstantInfo| push_constant_range(p),
            ),
    {
        let code = shader_code(self.stage.spv.as_slice());
        let ghost meta = self.stage.meta;
        let stages = vec![self.stage.meta];
        proof {
            assert(stages@ =~= seq![meta]);
            assert(stages@.drop_last() =~= Seq::<ShaderMeta>::empty());
            reveal_with_fuel(stage_bindings, 2);
            reveal_with_fuel(stage_push_constants, 2);
            assert(stage_bindings(stages@) =~= meta.bindings@);
            assert(stage_push_constants(stages@) =~= meta.push_constants@);
        }
        let layout = plan_layouts(stages.as_slice());
        ComputePipelinePlan { code, layout }
    }
}

} // verus!
