use wasm_merge::callgraph::{close_state_touching, reachable_state_touching};
use wasm_merge::component::CoreInstance;
use wasm_merge::copies::{copy_layout, global_layout};
use wasm_merge::ops::{MemOpKind, OpSummary};
use wasm_merge::plan::module_order;
use wasm_merge::rewrite::{consumer_op, lib_op, shell_body, specialize_op, Emit, Plain, SpecializeCtx};
use wasm_merge::specialize::{const_init, data_memory, ConstInit};
use wasm_merge::text::decimal_string;

#[test]
fn state_touching_closes_over_callers() {
    // Imported function 0; defined 1 calls 2, 2 touches memory, 3 calls 1, 4 is pure.
    let direct = vec![false, true, false, false];
    let callees = vec![vec![2], vec![], vec![1], vec![0]];
    assert_eq!(close_state_touching(&direct, &callees, 1), vec![false, true, true, true, false]);
}

#[test]
fn reachability_follows_state_touching_callees_only() {
    // 0 calls 1 (touching) and 2 (pure); 1 calls 3 (touching); 2 calls 4 (touching).
    let st = vec![true, true, false, true, true];
    let callees = vec![vec![1, 2], vec![3], vec![4], vec![], vec![]];
    let mut r = reachable_state_touching(&vec![0], &st, &callees, 0);
    r.sort();
    assert_eq!(r, vec![0, 1, 3]);
    // A pure entry (2) and one out of range (9) are left out (pure functions
    // stay shared), but the state-touching function 4 that 2 calls is kept.
    let r = reachable_state_touching(&vec![2, 9], &st, &callees, 0);
    assert_eq!(r, vec![4]);
    // A pure start that calls a state-touching function.
    assert_eq!(reachable_state_touching(&vec![0], &vec![false, true], &vec![vec![1], vec![]], 0), vec![1]);
}

#[test]
fn pure_entry_stays_shared() {
    // 1 calls 0 and 2; 0, 1 and 3 touch state; align_up (2) is pure.
    let st = vec![true, true, false, true];
    let callees = vec![vec![], vec![0, 2], vec![], vec![]];
    assert_eq!(reachable_state_touching(&vec![2], &st, &callees, 0), Vec::<u32>::new());
    let mut r = reachable_state_touching(&vec![1, 2], &st, &callees, 0);
    r.sort();
    assert_eq!(r, vec![0, 1]);
}

#[test]
fn copies_are_laid_out_consumer_by_consumer() {
    let needed = vec![vec![true, false, true], vec![false, true, true]];
    let (targets, next) = copy_layout(&needed, 10).unwrap();
    assert_eq!(targets, vec![vec![Some(10), None, Some(11)], vec![None, Some(12), Some(13)]]);
    assert_eq!(next, 14);
    assert!(copy_layout(&vec![vec![true, true]], u32::MAX - 1).is_none());
}

#[test]
fn globals_get_one_slot_per_consumer_when_mutable() {
    let (base, total) = global_layout(&vec![true, false, true], 3).unwrap();
    assert_eq!(base, vec![0, 3, 4]);
    assert_eq!(total, 7);
    assert!(global_layout(&vec![true, true], u32::MAX).is_none());
}

#[test]
fn data_segments_land_in_each_instance_copy() {
    assert_eq!(data_memory(0, 3, 2), 2);
    assert_eq!(data_memory(2, 3, 1), 7);
    assert_eq!(data_memory(u32::MAX, 2, 1), u32::MAX);
}

fn ctx(inst: u32) -> SpecializeCtx {
    SpecializeCtx {
        inst,
        fshift: 2,
        temp_base: 5,
        mutable: vec![1],
        global_base: vec![0, 1, 3],
        targets: vec![None, Some(40), None],
    }
}

#[test]
fn specialized_copies_use_their_consumer_memory() {
    let load = OpSummary::Access { kind: MemOpKind::I32Load, memory: 0, offset: 0 };
    assert_eq!(specialize_op(load, &ctx(1)), Some(vec![Emit::Memory { kind: MemOpKind::I32Load, memory: 1 }]));
    let store = OpSummary::Access { kind: MemOpKind::I64Store, memory: 7, offset: 16 };
    assert_eq!(
        specialize_op(store, &ctx(2)),
        Some(vec![
            Emit::Plain(Plain::LocalSet(6)),
            Emit::Plain(Plain::I32Const(16)),
            Emit::Plain(Plain::I32Add),
            Emit::Plain(Plain::LocalGet(6)),
            Emit::Memory { kind: MemOpKind::I64Store, memory: 2 },
        ])
    );
    let load_off = OpSummary::Access { kind: MemOpKind::F64Load, memory: 0, offset: 8 };
    assert_eq!(
        specialize_op(load_off, &ctx(0)),
        Some(vec![
            Emit::Plain(Plain::I32Const(8)),
            Emit::Plain(Plain::I32Add),
            Emit::Memory { kind: MemOpKind::F64Load, memory: 0 },
        ])
    );
    let copy = OpSummary::Copy { dst_mem: 0, src_mem: 1 };
    assert_eq!(specialize_op(copy, &ctx(3)), Some(vec![Emit::Memory { kind: MemOpKind::MemoryCopy, memory: 3 }]));
}

#[test]
fn specialized_copies_use_their_global_slot_and_calls() {
    assert_eq!(specialize_op(OpSummary::GlobalGet(1), &ctx(1)), Some(vec![Emit::Plain(Plain::GlobalGet(2))]));
    assert_eq!(specialize_op(OpSummary::GlobalSet(1), &ctx(0)), Some(vec![Emit::Plain(Plain::GlobalSet(1))]));
    // An immutable global is read at its one slot, whatever the consumer.
    assert_eq!(specialize_op(OpSummary::GlobalGet(0), &ctx(1)), Some(vec![Emit::Plain(Plain::GlobalGet(0))]));
    assert_eq!(specialize_op(OpSummary::GlobalGet(2), &ctx(1)), Some(vec![Emit::Plain(Plain::GlobalGet(3))]));
    assert_eq!(specialize_op(OpSummary::GlobalGet(7), &ctx(1)), Some(vec![Emit::Keep]));
    assert_eq!(specialize_op(OpSummary::Call(1), &ctx(1)), Some(vec![Emit::Plain(Plain::Call(40))]));
    assert_eq!(specialize_op(OpSummary::Call(2), &ctx(1)), Some(vec![Emit::Plain(Plain::Call(4))]));
    assert_eq!(specialize_op(OpSummary::I32Const(3), &ctx(1)), Some(vec![Emit::Keep]));
    let mut c = ctx(0);
    c.mutable = vec![9];
    assert_eq!(specialize_op(OpSummary::GlobalGet(9), &c), None);
}

#[test]
fn library_and_consumer_calls_are_moved() {
    let base = vec![0, 1, 3];
    assert_eq!(lib_op(OpSummary::Call(3), 2, &base), vec![Emit::Plain(Plain::Call(5))]);
    assert_eq!(lib_op(OpSummary::Call(3), 0, &base), vec![Emit::Keep]);
    assert_eq!(lib_op(OpSummary::End, 2, &base), vec![Emit::Keep]);
    // A shared library body reads each global at its first slot.
    assert_eq!(lib_op(OpSummary::GlobalGet(2), 2, &base), vec![Emit::Plain(Plain::GlobalGet(3))]);
    assert_eq!(lib_op(OpSummary::GlobalSet(1), 2, &base), vec![Emit::Plain(Plain::GlobalSet(1))]);
    assert_eq!(lib_op(OpSummary::GlobalGet(5), 2, &base), vec![Emit::Keep]);
    let remap = vec![Some(30), None];
    assert_eq!(consumer_op(OpSummary::Call(0), &remap, 2, 100, 3, 1), vec![Emit::Plain(Plain::Call(30))]);
    assert_eq!(consumer_op(OpSummary::Call(1), &remap, 2, 100, 3, 1), vec![Emit::Plain(Plain::Call(1))]);
    assert_eq!(consumer_op(OpSummary::Call(5), &remap, 2, 100, 3, 1), vec![Emit::Plain(Plain::Call(103))]);
    // Consumer 1 of 3: its memory 0 is copy 1 of the library's memory 0, its
    // memory 1 copy 1 of the library's memory 1 (memory 4); offsets stay.
    let load = OpSummary::Access { kind: MemOpKind::I32Load, memory: 0, offset: 8 };
    assert_eq!(
        consumer_op(load, &remap, 2, 100, 3, 1),
        vec![Emit::MemoryAt { kind: MemOpKind::I32Load, memory: 1, offset: 8 }]
    );
    let copy = OpSummary::Copy { dst_mem: 1, src_mem: 0 };
    assert_eq!(consumer_op(copy, &remap, 2, 100, 3, 1), vec![Emit::CopyBetween { dst: 4, src: 1 }]);
    assert_eq!(consumer_op(OpSummary::GlobalGet(0), &remap, 2, 100, 3, 1), vec![Emit::Keep]);
    assert_eq!(
        shell_body(2, 9),
        vec![
            Emit::Plain(Plain::LocalGet(0)),
            Emit::Plain(Plain::LocalGet(1)),
            Emit::Plain(Plain::Call(9)),
            Emit::Plain(Plain::End),
        ]
    );
}

#[test]
fn const_initializers() {
    assert_eq!(const_init(&vec![OpSummary::Other, OpSummary::I64Const(-5), OpSummary::End]), ConstInit::I64(-5));
    assert_eq!(const_init(&vec![OpSummary::End, OpSummary::I32Const(4)]), ConstInit::I32(0));
    assert_eq!(const_init(&vec![]), ConstInit::I32(0));
}

#[test]
fn decimal_rendering() {
    assert_eq!(decimal_string(0), "0");
    assert_eq!(decimal_string(1234), "1234");
    assert_eq!(decimal_string(u64::MAX), u64::MAX.to_string());
}

#[test]
fn merge_order_is_a_permutation() {
    let instances = vec![
        CoreInstance { module_idx: 2, args: vec![] },
        CoreInstance { module_idx: 0, args: vec![("m2".to_string(), 0)] },
    ];
    let mut order = module_order(&instances, 4);
    assert_eq!(order, vec![0, 2, 1, 3]);
    order.sort();
    assert_eq!(order, vec![0, 1, 2, 3]);
}
