use lib::ast::{RegWidth, Type};
use lib::interference::{build_interference_graph, ranges_interfere, InterferenceGraph, LiveRange, VReg, VRegType};
use lib::layout::{align_up, layout_fields, layout_of_struct, round_up, size_align_of};
use lib::mir::{BlockIdGen, GlobalGenerator, VRegGenerator, VarGenerator};
use lib::regalloc::{color_graph, simplify_graph, Slot};
use lib::regs::{A64RegGpr, A64Regs, X86RegGpr, X86Regs};
use lib::symbols::{Symbols, SymId};

fn ivreg(id: usize) -> VReg {
    VReg { id, ty: VRegType::Int, width: RegWidth::W64 }
}

#[test]
fn align_up_rounds_to_multiple() {
    assert_eq!(align_up(0, 8), 0);
    assert_eq!(align_up(1, 8), 8);
    assert_eq!(align_up(8, 8), 8);
    assert_eq!(align_up(13, 4), 16);
    assert_eq!(round_up(5, 1), 5);
}

#[test]
fn sizes_of_scalar_types() {
    assert_eq!(size_align_of(&Type::Char), (1, 1));
    assert_eq!(size_align_of(&Type::Int), (4, 4));
    assert_eq!(size_align_of(&Type::Long), (8, 8));
    assert_eq!(size_align_of(&Type::Pointer(Box::new(Type::Int))), (8, 8));
}

#[test]
fn struct_layout_pads_fields() {
    let fields = vec![
        ("a".to_string(), Type::Char),
        ("b".to_string(), Type::Int),
        ("c".to_string(), Type::Char),
    ];
    let l = layout_fields(&fields);
    assert_eq!(l.fields[0].offset, 0);
    assert_eq!(l.fields[1].offset, 4);
    assert_eq!(l.fields[2].offset, 8);
    assert_eq!(l.fields[1].name, "b");
    assert_eq!(l.size, 12);
    assert_eq!(l.align, 4);
    assert_eq!(layout_of_struct(&[Type::Char, Type::Int, Type::Char]), (12, 4));
}

#[test]
fn live_ranges_overlap() {
    let a = LiveRange { vreg: ivreg(0), start: 0, end: 5 };
    let b = LiveRange { vreg: ivreg(1), start: 5, end: 9 };
    let c = LiveRange { vreg: ivreg(2), start: 6, end: 9 };
    assert!(ranges_interfere(&a, &b));
    assert!(ranges_interfere(&b, &a));
    assert!(!ranges_interfere(&a, &c));
    assert!(!ranges_interfere(&c, &a));
}

#[test]
fn interference_graph_edges_are_symmetric() {
    let mut g = InterferenceGraph::new();
    g.add_node(ivreg(0));
    g.add_node(ivreg(1));
    g.add_node(ivreg(2));
    g.add_edge(ivreg(0), ivreg(1));
    assert_eq!(g.degree(&ivreg(0)), 1);
    assert_eq!(g.degree(&ivreg(1)), 1);
    assert_eq!(g.degree(&ivreg(2)), 0);
    g.add_edge(ivreg(0), ivreg(1));
    assert_eq!(g.degree(&ivreg(0)), 1);
    g.remove_node(&ivreg(1));
    assert_eq!(g.degree(&ivreg(0)), 0);
    assert_eq!(g.len(), 2);
}

#[test]
fn build_graph_from_ranges() {
    let ranges = vec![
        LiveRange { vreg: ivreg(0), start: 0, end: 4 },
        LiveRange { vreg: ivreg(1), start: 2, end: 6 },
        LiveRange { vreg: ivreg(2), start: 7, end: 8 },
    ];
    let g = build_interference_graph(&ranges);
    assert_eq!(g.len(), 3);
    assert_eq!(g.degree(&ivreg(0)), 1);
    assert_eq!(g.degree(&ivreg(1)), 1);
    assert_eq!(g.degree(&ivreg(2)), 0);
}

#[test]
fn coloring_triangle_with_two_colors_spills_one() {
    let ranges = vec![
        LiveRange { vreg: ivreg(0), start: 0, end: 9 },
        LiveRange { vreg: ivreg(1), start: 0, end: 9 },
        LiveRange { vreg: ivreg(2), start: 0, end: 9 },
    ];
    let g = build_interference_graph(&ranges);
    let stack = simplify_graph(&g, 2);
    assert_eq!(stack.len(), 3);
    let (alloc, next) = color_graph(&stack, &g, 16, 2);
    assert_eq!(alloc.len(), 3);
    let regs: Vec<usize> = alloc.iter().filter_map(|(_, s)| match s { Slot::Reg(r) => Some(*r), _ => None }).collect();
    let spills: Vec<i32> = alloc.iter().filter_map(|(_, s)| match s { Slot::Stack(o) => Some(*o), _ => None }).collect();
    assert_eq!(regs.len(), 2);
    assert_ne!(regs[0], regs[1]);
    assert_eq!(spills, vec![16]);
    assert_eq!(next, 24);
}

#[test]
fn coloring_independent_nodes_share_a_color() {
    let ranges = vec![
        LiveRange { vreg: ivreg(0), start: 0, end: 1 },
        LiveRange { vreg: ivreg(1), start: 3, end: 4 },
    ];
    let g = build_interference_graph(&ranges);
    let stack = simplify_graph(&g, 1);
    let (alloc, next) = color_graph(&stack, &g, 0, 1);
    assert_eq!(alloc.len(), 2);
    assert!(alloc.iter().all(|(_, s)| matches!(s, Slot::Reg(0))));
    assert_eq!(next, 0);
}

#[test]
fn x86_register_classes() {
    let regs = X86Regs;
    assert!(regs.is_callee_saved(&X86RegGpr::RBX));
    assert!(!regs.is_caller_saved(&X86RegGpr::RBX));
    assert!(regs.is_caller_saved(&X86RegGpr::RAX));
    assert_eq!(regs.reg64(X86RegGpr::RAX), "rax");
    assert_eq!(regs.reg32(X86RegGpr::R8), "r8d");
    assert_eq!(regs.allocatable_regs().len(), 14);
    assert!(matches!(regs.ret_reg(), X86RegGpr::RAX));
}

#[test]
fn a64_register_names() {
    let regs = A64Regs;
    assert_eq!(regs.reg64(A64RegGpr::X19), "x19");
    assert_eq!(regs.reg32(A64RegGpr::X19), "w19");
    assert!(regs.is_callee_saved(&A64RegGpr::X19));
}

#[test]
fn interning_gives_one_id_per_name() {
    let mut syms = Symbols::new();
    let a = syms.intern("main");
    let b = syms.intern("helper");
    let c = syms.intern("main");
    assert_eq!(a.0, c.0);
    assert_ne!(a.0, b.0);
    assert_eq!(syms.get(b), "helper");
    assert_eq!(Symbols::mangle_fn(a, &syms, true), "_main");
    assert_eq!(Symbols::mangle_fn(SymId(a.0), &syms, false), "main");
}

#[test]
fn generators_count_up() {
    let mut b = BlockIdGen::new();
    assert_eq!(b.fresh().0, 0);
    assert_eq!(b.fresh().0, 1);
    let mut v = VRegGenerator::default();
    let r0 = v.fresh(false, RegWidth::W32);
    let r1 = v.fresh(true, RegWidth::W64);
    assert_eq!(r0.id, 0);
    assert_eq!(r1.id, 1);
    assert!(matches!(r1.ty, VRegType::Float));
    let mut l = VarGenerator::default();
    assert_eq!(l.fresh(), 0);
    assert_eq!(l.fresh(), 1);
    let mut g = GlobalGenerator::default();
    assert_eq!(g.fresh(), 0);
}

#[test]
fn low_degree_nodes_are_found() {
    let mut g = InterferenceGraph::new();
    g.add_node(ivreg(0));
    g.add_node(ivreg(1));
    g.add_edge(ivreg(0), ivreg(1));
    let mut nodes: Vec<usize> = X86Regs.find_node_with_degree_less_than_k(&g).iter().map(|v| v.id).collect();
    nodes.sort();
    assert_eq!(nodes, vec![0, 1]);
}

#[test]
fn struct_size_includes_padding() {
    let s = Type::Struct { name: "S".to_string(), instances: vec![("c".to_string(), Type::Char), ("x".to_string(), Type::Int)] };
    assert_eq!(s.size(), 8);
}
