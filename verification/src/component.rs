//! Core modules and the instantiations that wire them together, and their
//! extraction from a binary component.

use vstd::prelude::*;
use vstd::string::StringExecFns;
use crate::bindings::{
    error_text, instance_section_items, parse_fails, parse_payloads, payload_tags, plain_instance_view,
    plain_instances_view, read_instance_section, PayloadTag, PlainInstance,
};
use crate::merge::prefixed;

verus! {

/// A core module extracted from a component.
pub struct CoreModule {
    /// Raw binary wasm bytes for this core module.
    pub wasm: Vec<u8>,
}

/// A core instance instantiation.
pub struct CoreInstance {
    /// Index into `Component::modules` for the module being instantiated.
    pub module_idx: u32,
    /// Arguments: (import_namespace, source_instance_index).
    pub args: Vec<(String, u32)>,
}

/// Parsed component structure.
pub struct Component {
    pub modules: Vec<CoreModule>,
    pub instances: Vec<CoreInstance>,
}

/// What the extraction tells apart of a component's payloads.
#[derive(PartialEq, Eq, Structural, Clone, Copy, Debug)]
pub enum PayloadKind {
    /// A nested component begins.
    Nested,
    /// A core module.
    Module,
    /// A module or component ends.
    End,
    /// A core instance section.
    Instances,
    Other,
}

/// The nesting depth after the first `i` payloads: a nested component or a core
/// module opens a level (the module itself is read at the level it opens
/// from), an end closes one (an end at the top level changes nothing).
pub open spec fn depth_after(kinds: Seq<PayloadKind>, i: int) -> int
    decreases i,
{
    if i <= 0 {
        0
    } else {
        let d = depth_after(kinds, i - 1);
        match kinds[i - 1] {
            PayloadKind::Nested => d + 1,
            PayloadKind::Module => d + 1,
            PayloadKind::End => if d > 0 {
                d - 1
            } else {
                d
            },
            _ => d,
        }
    }
}

/// Whether payload `i` belongs to the top-level component: it is read at
/// depth 0, and it neither opens a nested component nor closes a level (the
/// payloads inside a core module are not the component's own).
pub open spec fn is_top_level(kinds: Seq<PayloadKind>, i: int) -> bool {
    let d = depth_after(kinds, i);
    match kinds[i] {
        PayloadKind::Nested => false,
        PayloadKind::End => d == 0,
        _ => d == 0,
    }
}

/// Which payloads belong to the top-level component.
pub fn top_level_flags(kinds: &Vec<PayloadKind>) -> (r: Vec<bool>)
    ensures
        r.len() == kinds.len(),
        forall|i: int| 0 <= i < kinds.len() ==> (#[trigger] r@[i]) == is_top_level(kinds@, i),
{
    let mut flags: Vec<bool> = Vec::new();
    let mut depth: usize = 0;
    let mut i: usize = 0;
    while i < kinds.len()
        invariant
            i <= kinds.len(),
            flags.len() == i,
            depth == depth_after(kinds@, i as int),
            depth <= i,
            forall|j: int| 0 <= j < i ==> (#[trigger] flags@[j]) == is_top_level(kinds@, j),
        decreases kinds.len() - i,
    {
        match kinds[i] {
            PayloadKind::Nested => {
                depth = depth + 1;
                flags.push(false);
            },
            PayloadKind::End => {
                if depth > 0 {
                    depth = depth - 1;
                    flags.push(false);
                } else {
                    flags.push(true);
                }
            },
            PayloadKind::Module => {
                flags.push(depth == 0);
                depth = depth + 1;
            },
            _ => flags.push(depth == 0),
        }
        i += 1;
    }
    flags
}

pub open spec fn args_view(args: Seq<(String, u32)>) -> Seq<(Seq<char>, u32)> {
    args.map_values(|a: (String, u32)| (a.0@, a.1))
}

/// A core instance as plain values: its module index and its arguments.
pub open spec fn instance_view(c: CoreInstance) -> (u32, Seq<(Seq<char>, u32)>) {
    (c.module_idx, args_view(c.args@))
}

pub open spec fn instances_view(v: Seq<CoreInstance>) -> Seq<(u32, Seq<(Seq<char>, u32)>)> {
    v.map_values(|c: CoreInstance| instance_view(c))
}

/// The instantiations among the instances of a section, in order (instances
/// made of exports are passed over).
pub open spec fn instantiations(items: Seq<Option<(u32, Seq<(Seq<char>, u32)>)>>) -> Seq<(u32, Seq<(Seq<char>, u32)>)>
    decreases items.len(),
{
    if items.len() == 0 {
        seq![]
    } else {
        let r = instantiations(items.drop_last());
        match items.last() {
            Some(x) => r.push(x),
            None => r,
        }
    }
}

/// The instantiations of a section are exactly its instances that are
/// instantiations, unchanged: each comes from an item, arguments and all, and
/// each item that is an instantiation is among them.
pub proof fn lemma_instantiations_unchanged(items: Seq<Option<(u32, Seq<(Seq<char>, u32)>)>>)
    ensures
        forall|k: int|
            0 <= k < instantiations(items).len() ==> exists|j: int|
                0 <= j < items.len() && #[trigger] items[j] == Some(#[trigger] instantiations(items)[k]),
        forall|j: int|
            0 <= j < items.len() ==> (#[trigger] items[j] matches Some(x) ==> instantiations(items).contains(x)),
        instantiations(items).len() <= items.len(),
    decreases items.len(),
{
    if items.len() > 0 {
        let init = items.drop_last();
        lemma_instantiations_unchanged(init);
        let r = instantiations(init);
        let all = instantiations(items);
        assert forall|k: int| 0 <= k < all.len() implies exists|j: int|
            0 <= j < items.len() && #[trigger] items[j] == Some(#[trigger] all[k]) by {
            if k < r.len() {
                let j = choose|j: int| 0 <= j < init.len() && #[trigger] init[j] == Some(#[trigger] r[k]);
                assert(items[j] == init[j]);
                match items.last() {
                    Some(x) => assert(all[k] == r[k]),
                    None => {},
                }
            } else {
                assert(items[items.len() - 1] == Some(all[k]));
            }
        }
        assert forall|j: int| 0 <= j < items.len() implies (#[trigger] items[j] matches Some(x) ==> all.contains(x)) by {
            match items[j] {
                Some(x) => {
                    if j < items.len() - 1 {
                        assert(init[j] == items[j]);
                        assert(r.contains(x));
                        let k = choose|k: int| 0 <= k < r.len() && r[k] == x;
                        match items.last() {
                            Some(y) => assert(all[k] == x),
                            None => {},
                        }
                    } else {
                        assert(all[all.len() - 1] == x);
                    }
                },
                None => {},
            }
        }
    }
}

fn copy_args(args: &Vec<(String, u32)>) -> (r: Vec<(String, u32)>)
    ensures
        args_view(r@) == args_view(args@),
{
    let mut r: Vec<(String, u32)> = Vec::new();
    let mut j: usize = 0;
    while j < args.len()
        invariant
            j <= args.len(),
            args_view(r@) == args_view(args@.take(j as int)),
        decreases args.len() - j,
    {
        let ghost before = r@;
        r.push((args[j].0.clone(), args[j].1));
        proof {
            assert(args_view(r@) =~= args_view(before).push((args@[j as int].0@, args@[j as int].1)));
            assert(args@.take(j + 1) =~= args@.take(j as int).push(args@[j as int]));
            assert(args_view(args@.take(j + 1)) =~= args_view(args@.take(j as int)).push((args@[j as int].0@, args@[j as int].1)));
        }
        j += 1;
    }
    proof {
        assert(args@.take(args.len() as int) =~= args@);
    }
    r
}

/// Appends the instantiations of a core instance section, in order.
fn push_instances(items: &Vec<PlainInstance>, out: &mut Vec<CoreInstance>)
    ensures
        instances_view(final(out)@) == instances_view(old(out)@) + instantiations(plain_instances_view(items@)),
        final(out)@.len() >= old(out)@.len(),
        forall|k: int| 0 <= k < old(out)@.len() ==> #[trigger] final(out)@[k] == old(out)@[k],
        forall|k: int|
            old(out)@.len() <= k < final(out)@.len() ==> exists|j: int|
                0 <= j < items@.len() && #[trigger] plain_instance_view(items@[j]) == Some(
                    instance_view(#[trigger] final(out)@[k]),
                ),
        forall|j: int|
            0 <= j < items@.len() ==> (#[trigger] plain_instance_view(items@[j]) matches Some(x) ==> exists|k: int|
                old(out)@.len() <= k < final(out)@.len() && instance_view(#[trigger] final(out)@[k]) == x),
{
    let ghost start = instances_view(out@);
    let ghost old_out = out@;
    let mut k: usize = 0;
    while k < items.len()
        invariant
            k <= items.len(),
            instances_view(out@) == start + instantiations(plain_instances_view(items@.take(k as int))),
            start == instances_view(old_out),
            out@.len() >= old_out.len(),
            forall|m: int| 0 <= m < old_out.len() ==> #[trigger] out@[m] == old_out[m],
        decreases items.len() - k,
    {
        proof {
            assert(plain_instances_view(items@.take(k + 1)).drop_last() =~= plain_instances_view(items@.take(k as int)));
            assert(plain_instances_view(items@.take(k + 1)).last() == plain_instance_view(items@[k as int]));
        }
        match &items[k] {
            Some((module_idx, args)) => {
                let ghost before = out@;
                out.push(CoreInstance { module_idx: *module_idx, args: copy_args(args) });
                proof {
                    assert(instances_view(out@) =~= instances_view(before).push(instance_view(out@[out@.len() - 1])));
                }
            },
            None => {},
        }
        k += 1;
    }
    proof {
        assert(items@.take(items.len() as int) =~= items@);
        let pv = plain_instances_view(items@);
        let inst = instantiations(pv);
        lemma_instantiations_unchanged(pv);
        let n0 = old_out.len() as int;
        assert(instances_view(out@) == instances_view(old_out) + inst);
        assert(out@.len() == n0 + inst.len());
        assert forall|k: int| n0 <= k < out@.len() implies exists|j: int|
            0 <= j < items@.len() && #[trigger] plain_instance_view(items@[j]) == Some(instance_view(#[trigger] out@[k])) by {
            assert(instances_view(out@)[k] == instance_view(out@[k]));
            assert(instances_view(out@)[k] == inst[k - n0]);
            let j = choose|j: int| 0 <= j < pv.len() && #[trigger] pv[j] == Some(#[trigger] inst[k - n0]);
            assert(pv[j] == plain_instance_view(items@[j]));
        }
        assert forall|j: int| 0 <= j < items@.len() implies (#[trigger] plain_instance_view(items@[j]) matches Some(x) ==> exists|k: int|
            n0 <= k < out@.len() && instance_view(#[trigger] out@[k]) == x) by {
            assert(pv[j] == plain_instance_view(items@[j]));
            match pv[j] {
                Some(x) => {
                    assert(inst.contains(x));
                    let m = choose|m: int| 0 <= m < inst.len() && inst[m] == x;
                    assert(instances_view(out@)[n0 + m] == inst[m]);
                    assert(instance_view(out@[n0 + m]) == x);
                },
                None => {},
            }
        }
    }
}

/// `bytes` is a contiguous run of `wasm`.
pub open spec fn is_slice_of(bytes: Seq<u8>, wasm: Seq<u8>) -> bool {
    exists|s: int, e: int| #![trigger wasm.subrange(s, e)] 0 <= s <= e <= wasm.len() && bytes == wasm.subrange(s, e)
}

/// The bytes `wasm[start..end]`.
pub fn byte_range(wasm: &[u8], start: usize, end: usize) -> (r: Vec<u8>)
    requires
        start <= end <= wasm@.len(),
    ensures
        r@ == wasm@.subrange(start as int, end as int),
{
    let mut out: Vec<u8> = Vec::new();
    let mut i = start;
    while i < end
        invariant
            start <= i <= end <= wasm@.len(),
            out@ == wasm@.subrange(start as int, i as int),
        decreases end - i,
    {
        out.push(wasm[i]);
        i += 1;
        proof {
            assert(out@ =~= wasm@.subrange(start as int, i as int));
        }
    }
    out
}

/// The extraction's kind of a payload tag.
pub open spec fn tag_kind(t: PayloadTag) -> PayloadKind {
    match t {
        PayloadTag::Nested => PayloadKind::Nested,
        PayloadTag::Module { .. } => PayloadKind::Module,
        PayloadTag::End => PayloadKind::End,
        PayloadTag::Instances { .. } => PayloadKind::Instances,
        _ => PayloadKind::Other,
    }
}

pub open spec fn tag_kinds(tags: Seq<PayloadTag>) -> Seq<PayloadKind> {
    tags.map_values(|t: PayloadTag| tag_kind(t))
}

fn kind_of_tag(t: PayloadTag) -> (k: PayloadKind)
    ensures
        k == tag_kind(t),
{
    match t {
        PayloadTag::Nested => PayloadKind::Nested,
        PayloadTag::Module { .. } => PayloadKind::Module,
        PayloadTag::End => PayloadKind::End,
        PayloadTag::Instances { .. } => PayloadKind::Instances,
        _ => PayloadKind::Other,
    }
}

/// The byte ranges of the top-level core modules among the first `i` payloads,
/// in order.
pub open spec fn top_module_ranges(tags: Seq<PayloadTag>, i: int) -> Seq<(u64, u64)>
    decreases i,
{
    if i <= 0 {
        seq![]
    } else {
        let r = top_module_ranges(tags, i - 1);
        match tags[i - 1] {
            PayloadTag::Module { start, end } => if is_top_level(tag_kinds(tags), i - 1) {
                r.push((start, end))
            } else {
                r
            },
            _ => r,
        }
    }
}

/// The top-level core module ranges of the parse of `wasm`.
pub open spec fn component_module_ranges(wasm: Seq<u8>) -> Seq<(u64, u64)> {
    top_module_ranges(payload_tags(wasm), payload_tags(wasm).len() as int)
}

/// A byte range that lies inside an input of `n` bytes.
pub open spec fn range_fits(r: (u64, u64), n: int) -> bool {
    r.0 <= r.1 && r.1 <= n
}

/// The top-level module ranges among the first `i` payloads begin those among
/// the first `j`.
pub proof fn lemma_top_ranges_prefix(tags: Seq<PayloadTag>, i: int, j: int)
    requires
        0 <= i <= j,
    ensures
        top_module_ranges(tags, i).len() <= top_module_ranges(tags, j).len(),
        forall|k: int|
            0 <= k < top_module_ranges(tags, i).len() ==> #[trigger] top_module_ranges(tags, j)[k]
                == top_module_ranges(tags, i)[k],
    decreases j - i,
{
    if i < j {
        lemma_top_ranges_prefix(tags, i, j - 1);
    }
}

/// What reading the core instance section at bytes `start..end` of `wasm`
/// gives.
pub open spec fn section_read(wasm: Seq<u8>, start: u64, end: u64)
    -> Result<Seq<Option<(u32, Seq<(Seq<char>, u32)>)>>, Seq<char>>
{
    if start <= end && end <= wasm.len() {
        instance_section_items(wasm.subrange(start as int, end as int), start)
    } else {
        Err("the section lies outside the component"@)
    }
}

/// Payload `j` is a top-level core instance section that cannot be read.
pub open spec fn bad_instance_section(wasm: Seq<u8>, tags: Seq<PayloadTag>, j: int) -> bool {
    match tags[j] {
        PayloadTag::Instances { start, end } => is_top_level(tag_kinds(tags), j) && section_read(wasm, start, end) is Err,
        _ => false,
    }
}

/// The instantiations of the top-level core instance sections among the first
/// `i` payloads, in order.
pub open spec fn top_instances(wasm: Seq<u8>, tags: Seq<PayloadTag>, i: int) -> Seq<(u32, Seq<(Seq<char>, u32)>)>
    decreases i,
{
    if i <= 0 {
        seq![]
    } else {
        let r = top_instances(wasm, tags, i - 1);
        match tags[i - 1] {
            PayloadTag::Instances { start, end } => if is_top_level(tag_kinds(tags), i - 1) {
                match section_read(wasm, start, end) {
                    Ok(items) => r + instantiations(items),
                    Err(_) => r,
                }
            } else {
                r
            },
            _ => r,
        }
    }
}

/// The instantiations of the component's top-level core instance sections.
pub open spec fn component_instances(wasm: Seq<u8>) -> Seq<(u32, Seq<(Seq<char>, u32)>)> {
    top_instances(wasm, payload_tags(wasm), payload_tags(wasm).len() as int)
}

/// Some top-level core instance section of the component cannot be read.
pub open spec fn instance_read_fails(wasm: Seq<u8>) -> bool {
    exists|j: int| 0 <= j < payload_tags(wasm).len() && #[trigger] bad_instance_section(wasm, payload_tags(wasm), j)
}

/// Every top-level module range lies inside the input.
pub open spec fn module_ranges_fit(wasm: Seq<u8>) -> bool {
    forall|k: int|
        0 <= k < component_module_ranges(wasm).len() ==> range_fits(
            #[trigger] component_module_ranges(wasm)[k],
            wasm.len() as int,
        )
}

/// The refusals of the extraction: a parse error (prefixed `Parse error: `), a
/// top-level module range outside the input, a component without top-level
/// core modules, or a top-level core instance section that cannot be read.
pub open spec fn extract_error(wasm: Seq<u8>, e: Seq<char>) -> bool {
    ||| parse_fails(wasm) && "Parse error: "@.is_prefix_of(e)
    ||| !module_ranges_fit(wasm) && e == "Parse error: a module section lies outside the component"@
    ||| component_module_ranges(wasm).len() == 0 && e == "No core modules found in component"@
    ||| instance_read_fails(wasm) && "Core instance section error: "@.is_prefix_of(e)
}

/// Extract core modules and instantiation wiring from a binary component.
/// Only the payloads of the top-level component count (`is_top_level`): its
/// core modules, each copied from its byte range, and the instantiations of
/// its core instance sections. Parse errors come back prefixed `Parse error: `,
/// errors in an instance section `Core instance section error: `; a component
/// without core modules is refused, and so is a module range outside the input.
pub fn extract_component(wasm: &[u8]) -> (r: Result<Component, String>)
    ensures
        parse_fails(wasm@) ==> r is Err,
        component_module_ranges(wasm@).len() == 0 ==> r is Err,
        !module_ranges_fit(wasm@) ==> r is Err,
        instance_read_fails(wasm@) ==> r is Err,
        !parse_fails(wasm@) && component_module_ranges(wasm@).len() > 0 && module_ranges_fit(wasm@)
            && !instance_read_fails(wasm@) ==> r is Ok,
        r matches Ok(c) ==> {
            &&& c.modules.len() == component_module_ranges(wasm@).len()
            &&& forall|k: int|
                0 <= k < c.modules.len() ==> (#[trigger] c.modules@[k]).wasm@ == wasm@.subrange(
                    component_module_ranges(wasm@)[k].0 as int,
                    component_module_ranges(wasm@)[k].1 as int,
                )
            &&& instances_view(c.instances@) == component_instances(wasm@)
        },
        r matches Ok(c) ==> c.modules.len() > 0 && forall|k: int|
            0 <= k < c.modules.len() ==> is_slice_of((#[trigger] c.modules@[k]).wasm@, wasm@),
        r matches Err(e) ==> extract_error(wasm@, e@),
{
    let (payloads, tags) = parse_payloads(wasm);
    let ghost tv = payload_tags(wasm@);
    let ghost kv = tag_kinds(tv);
    let mut modules: Vec<CoreModule> = Vec::new();
    let mut instances: Vec<CoreInstance> = Vec::new();
    let mut depth: usize = 0;
    let mut i: usize = 0;
    while i < payloads.len()
        invariant
            tags@ == tv,
            tv == payload_tags(wasm@),
            kv == tag_kinds(tv),
            tags.len() == payloads.len(),
            forall|j: int| 0 <= j < payloads.len() ==> (payloads@[j] is Err <==> #[trigger] tags@[j] == PayloadTag::Failed),
            i <= payloads.len(),
            forall|j: int| 0 <= j < i ==> #[trigger] tv[j] != PayloadTag::Failed,
            forall|j: int| 0 <= j < i ==> !#[trigger] bad_instance_section(wasm@, tv, j),
            depth == depth_after(kv, i as int),
            depth <= i,
            modules.len() == top_module_ranges(tv, i as int).len(),
            forall|k: int| 0 <= k < modules.len() ==> range_fits(#[trigger] top_module_ranges(tv, i as int)[k], wasm@.len() as int),
            forall|k: int|
                0 <= k < modules.len() ==> (#[trigger] modules@[k]).wasm@ == wasm@.subrange(
                    top_module_ranges(tv, i as int)[k].0 as int,
                    top_module_ranges(tv, i as int)[k].1 as int,
                ),
            forall|k: int| 0 <= k < modules.len() ==> is_slice_of((#[trigger] modules@[k]).wasm@, wasm@),
            instances_view(instances@) == top_instances(wasm@, tv, i as int),
        decreases payloads.len() - i,
    {
        match &payloads[i] {
            Err(e) => {
                let msg = prefixed("Parse error: ", &error_text(e));
                proof {
                    assert(payloads@[i as int] is Err);
                    assert(tags@[i as int] == PayloadTag::Failed);
                    assert(payload_tags(wasm@)[i as int] == PayloadTag::Failed);
                    assert(parse_fails(wasm@));
                    assert("Parse error: "@.is_prefix_of(msg@)) by {
                        assert(msg@.subrange(0, "Parse error: "@.len() as int) =~= "Parse error: "@);
                    }
                }
                return Err(msg);
            },
            Ok(_) => {},
        }
        let kind = kind_of_tag(tags[i]);
        let top = match kind {
            PayloadKind::Nested => false,
            _ => depth == 0,
        };
        proof {
            assert(kv[i as int] == kind);
            assert(top == is_top_level(kv, i as int));
        }
        let ghost r0 = top_module_ranges(tv, i as int);
        let ghost n0 = top_instances(wasm@, tv, i as int);
        let ghost before = modules@;
        if top {
            match tags[i] {
                PayloadTag::Module { start, end } => {
                    if start > end || end > wasm.len() as u64 {
                        proof {
                            assert(top_module_ranges(tv, i + 1) == r0.push((start, end)));
                            lemma_top_ranges_prefix(tv, i + 1, tv.len() as int);
                            let k = r0.len() as int;
                            assert(top_module_ranges(tv, i + 1)[k] == (start, end));
                            assert(top_module_ranges(tv, tv.len() as int)[k] == (start, end));
                            assert(component_module_ranges(wasm@)[k] == (start, end));
                            assert(!range_fits(component_module_ranges(wasm@)[k], wasm@.len() as int));
                        }
                        return Err(String::from_str("Parse error: a module section lies outside the component"));
                    }
                    let bytes = byte_range(wasm, start as usize, end as usize);
                    let ghost s = start as int;
                    let ghost e = end as int;
                    modules.push(CoreModule { wasm: bytes });
                    proof {
                        assert(top_module_ranges(tv, i + 1) == r0.push((start, end)));
                        assert(top_instances(wasm@, tv, i + 1) == n0);
                        assert(!bad_instance_section(wasm@, tv, i as int));
                        assert(modules@[modules.len() - 1].wasm@ == wasm@.subrange(s, e));
                        assert(is_slice_of(modules@[modules.len() - 1].wasm@, wasm@));
                        assert forall|k: int| 0 <= k < modules.len() - 1 implies modules@[k] == before[k] by {}
                    }
                },
                PayloadTag::Instances { start, end } => {
                    if start > end || end > wasm.len() as u64 {
                        let msg = prefixed("Core instance section error: ", &String::from_str("the section lies outside the component"));
                        proof {
                            assert(bad_instance_section(wasm@, tv, i as int));
                            assert(instance_read_fails(wasm@));
                            assert(msg@.subrange(0, "Core instance section error: "@.len() as int)
                                =~= "Core instance section error: "@);
                        }
                        return Err(msg);
                    }
                    let bytes = byte_range(wasm, start as usize, end as usize);
                    match read_instance_section(bytes.as_slice(), start) {
                        Ok(items) => {
                            let ghost old_inst = instances@;
                            push_instances(&items, &mut instances);
                            proof {
                                assert(section_read(wasm@, start, end) == Ok::<_, Seq<char>>(plain_instances_view(items@)));
                                assert(top_instances(wasm@, tv, i + 1) == n0 + instantiations(plain_instances_view(items@)));
                                assert(!bad_instance_section(wasm@, tv, i as int));
                            }
                        },
                        Err(e) => {
                            let msg = prefixed("Core instance section error: ", &e);
                            proof {
                                assert(section_read(wasm@, start, end) is Err);
                                assert(bad_instance_section(wasm@, tv, i as int));
                                assert(instance_read_fails(wasm@));
                                assert(msg@.subrange(0, "Core instance section error: "@.len() as int)
                                    =~= "Core instance section error: "@);
                            }
                            return Err(msg);
                        },
                    }
                    proof {
                        assert(top_module_ranges(tv, i + 1) == r0);
                    }
                },
                _ => {
                    proof {
                        assert(top_module_ranges(tv, i + 1) == r0);
                        assert(top_instances(wasm@, tv, i + 1) == n0);
                        assert(!bad_instance_section(wasm@, tv, i as int));
                    }
                },
            }
        } else {
            proof {
                assert(top_module_ranges(tv, i + 1) == r0);
                assert(top_instances(wasm@, tv, i + 1) == n0);
                assert(!bad_instance_section(wasm@, tv, i as int));
            }
        }
        match kind {
            PayloadKind::Nested => {
                depth = depth + 1;
            },
            PayloadKind::Module => {
                depth = depth + 1;
            },
            PayloadKind::End => {
                if depth > 0 {
                    depth = depth - 1;
                }
            },
            _ => {},
        }
        i += 1;
    }
    proof {
        assert(!parse_fails(wasm@));
        assert(!instance_read_fails(wasm@));
        assert(tv.len() == payloads.len());
    }
    if modules.len() == 0 {
        return Err(String::from_str("No core modules found in component"));
    }
    Ok(Component { modules, instances })
}

} // verus!
