use vstd::prelude::*;
use vstd::arithmetic::power2::pow2;
use vstd::bits::low_bits_mask;

verus! {

/// `a` is a power of two that fits in a machine word.
pub open spec fn is_power_of_two(a: usize) -> bool {
    exists|k: nat| k < usize::BITS && a == pow2(k)
}

/// The smallest multiple of `a` that is at least `x`.
pub open spec fn spec_align_up(x: int, a: int) -> int
    recommends
        a > 0,
{
    ((x + a - 1) / a) * a
}

proof fn lemma_pow2_mask(y: usize, a: usize)
    requires
        is_power_of_two(a),
    ensures
        a > 0,
        y & ((a - 1) as usize) == y % a,
{
    let k = choose|k: nat| k < usize::BITS && a == pow2(k);
    vstd::arithmetic::power2::lemma_pow2_pos(k);
    assert(low_bits_mask(k) == pow2(k) - 1);
    vstd::bits::lemma_usize_low_bits_mask_is_mod(y, k);
}

/// Rounds `x` up to the next multiple of the power of two `a`.
pub fn align_up(x: usize, a: usize) -> (r: usize)
    requires
        is_power_of_two(a),
        x + a - 1 <= usize::MAX,
    ensures
        r == spec_align_up(x as int, a as int),
        r % a == 0,
        x <= r < x + a,
{
    proof {
        lemma_pow2_mask(0, a);
    }
    let m: usize = a - 1;
    let y: usize = x + m;
    let r: usize = y & !m;
    assert(r + (y & m) == y) by (bit_vector)
        requires
            r == y & !m,
    ;
    proof {
        lemma_pow2_mask(y, a);
        vstd::arithmetic::div_mod::lemma_fundamental_div_mod(y as int, a as int);
        vstd::arithmetic::div_mod::lemma_mod_bound(y as int, a as int);
        vstd::arithmetic::div_mod::lemma_mod_multiples_basic(y as int / a as int, a as int);
        vstd::arithmetic::mul::lemma_mul_is_commutative(y as int / a as int, a as int);
    }
    r
}

} // verus!

verus! {

use crate::ast::{Type, TypeV, type_view, fields_view, lemma_struct_view};

pub open spec fn max_nat(a: nat, b: nat) -> nat {
    if a >= b { a } else { b }
}

/// Size and alignment of a type, structs laid out with natural alignment.
pub open spec fn spec_size_align(t: TypeV) -> (nat, nat)
    decreases t,
{
    match t {
        TypeV::Char | TypeV::Bool => (1, 1),
        TypeV::Int | TypeV::Float => (4, 4),
        TypeV::Pointer(_) | TypeV::Long => (8, 8),
        TypeV::Array(_, _) => (8, 8),
        TypeV::Struct { instances, .. } => {
            let (o, m) = spec_fold_fields(instances);
            (spec_align_up(o as int, m as int) as nat, m)
        },
        _ => (0, 1),
    }
}

/// One step of laying out fields: place a field of size `sz` and alignment `al`
/// after `off` bytes, with `max_a` the largest alignment so far.
pub open spec fn layout_step(off: nat, max_a: nat, sz: nat, al: nat) -> (nat, nat) {
    let al2 = max_nat(al, 1);
    ((spec_align_up(off as int, al2 as int) + sz) as nat, max_nat(max_a, al2))
}

/// End offset and largest alignment after laying out the fields in order.
pub open spec fn spec_fold_fields(fs: Seq<(Seq<char>, TypeV)>) -> (nat, nat)
    decreases fs,
{
    if fs.len() == 0 {
        (0, 1)
    } else {
        let (o, m) = spec_fold_fields(fs.drop_last());
        let (sz, al) = spec_size_align(fs.last().1);
        layout_step(o, m, sz, al)
    }
}

/// End offset and largest alignment after laying out fields of the given types in order.
pub open spec fn spec_fold_types(ts: Seq<TypeV>) -> (nat, nat)
    decreases ts.len(),
{
    if ts.len() == 0 {
        (0, 1)
    } else {
        let (o, m) = spec_fold_types(ts.drop_last());
        let (sz, al) = spec_size_align(ts.last());
        layout_step(o, m, sz, al)
    }
}

/// Size and alignment of a struct whose fields have the given types.
pub open spec fn spec_layout_of_struct(ts: Seq<TypeV>) -> (nat, nat) {
    if ts.len() == 0 {
        (0, 1)
    } else {
        let (o, m) = spec_fold_types(ts);
        (spec_align_up(o as int, m as int) as nat, m)
    }
}

/// No step of the layout computation exceeds the machine word.
pub open spec fn step_fits(off: nat, sz: nat, al: nat) -> bool {
    let al2 = max_nat(al, 1);
    &&& off + al2 - 1 <= usize::MAX
    &&& spec_align_up(off as int, al2 as int) + sz <= usize::MAX
}

pub open spec fn layout_fits(t: TypeV) -> bool
    decreases t,
{
    match t {
        TypeV::Struct { instances, .. } => {
            &&& fold_fields_fit(instances)
            &&& spec_fold_fields(instances).0 + spec_fold_fields(instances).1 - 1 <= usize::MAX
        },
        _ => true,
    }
}

pub open spec fn fold_fields_fit(fs: Seq<(Seq<char>, TypeV)>) -> bool
    decreases fs,
{
    if fs.len() == 0 {
        true
    } else {
        let (o, m) = spec_fold_fields(fs.drop_last());
        let (sz, al) = spec_size_align(fs.last().1);
        &&& fold_fields_fit(fs.drop_last())
        &&& layout_fits(fs.last().1)
        &&& step_fits(o, sz, al)
    }
}

pub open spec fn fold_types_fit(ts: Seq<TypeV>) -> bool
    decreases ts.len(),
{
    if ts.len() == 0 {
        true
    } else {
        let (o, m) = spec_fold_types(ts.drop_last());
        let (sz, al) = spec_size_align(ts.last());
        &&& fold_types_fit(ts.drop_last())
        &&& layout_fits(ts.last())
        &&& step_fits(o, sz, al)
    }
}

pub open spec fn is_align(a: nat) -> bool {
    a == 1 || a == 4 || a == 8
}

pub(crate) proof fn lemma_pow2_aligns()
    ensures
        is_power_of_two(1),
        is_power_of_two(4),
        is_power_of_two(8),
{
    vstd::arithmetic::power2::lemma2_to64();
    assert(1usize == pow2(0));
    assert(4usize == pow2(2));
    assert(8usize == pow2(3));
}

/// Every alignment the layout produces is 1, 4 or 8.
pub proof fn lemma_align_values(t: TypeV)
    ensures
        is_align(spec_size_align(t).1),
    decreases t,
{
    if let TypeV::Struct { instances, .. } = t {
        lemma_fold_fields_align(instances);
    }
}

pub(crate) proof fn lemma_fold_fields_align(fs: Seq<(Seq<char>, TypeV)>)
    ensures
        is_align(spec_fold_fields(fs).1),
    decreases fs,
{
    if fs.len() > 0 {
        lemma_fold_fields_align(fs.drop_last());
        lemma_align_values(fs.last().1);
    }
}

proof fn lemma_fold_types_align(ts: Seq<TypeV>)
    ensures
        is_align(spec_fold_types(ts).1),
    decreases ts.len(),
{
    if ts.len() > 0 {
        lemma_fold_types_align(ts.drop_last());
        lemma_align_values(ts.last());
    }
}

/// The two folds agree on the field types.
pub proof fn lemma_fold_fields_types(fs: Seq<(Seq<char>, TypeV)>)
    ensures
        spec_fold_fields(fs) == spec_fold_types(fs.map_values(|p: (Seq<char>, TypeV)| p.1)),
        fold_fields_fit(fs) == fold_types_fit(fs.map_values(|p: (Seq<char>, TypeV)| p.1)),
    decreases fs.len(),
{
    let ts = fs.map_values(|p: (Seq<char>, TypeV)| p.1);
    if fs.len() > 0 {
        lemma_fold_fields_types(fs.drop_last());
        assert(fs.drop_last().map_values(|p: (Seq<char>, TypeV)| p.1) =~= ts.drop_last());
    }
}

pub open spec fn types_view(ts: Seq<Type>) -> Seq<TypeV> {
    ts.map_values(|t: Type| t@)
}

/// Size and alignment of a value of type `ty`.
pub fn size_align_of(ty: &Type) -> (r: (usize, usize))
    requires
        layout_fits(ty@),
    ensures
        r.0 == spec_size_align(ty@).0,
        r.1 == spec_size_align(ty@).1,
    decreases ty,
{
    match ty {
        Type::Char | Type::Bool => (1, 1),
        Type::Int => (4, 4),
        Type::Float => (4, 4),
        Type::Pointer(_) | Type::Long => (8, 8),
        Type::Array(_, _) => (8, 8),
        Type::Struct { name, instances } => {
            proof {
                lemma_struct_view(*name, *instances);
            }
            let (off, max_a) = fold_fields(instances);
            proof {
                lemma_fold_fields_align(fields_view(instances@));
                lemma_pow2_aligns();
            }
            (align_up(off, max_a), max_a)
        },
        Type::Void | Type::Unknown => (0, 1),
        _ => (0, 1),
    }
}

fn fold_fields(fs: &Vec<(String, Type)>) -> (r: (usize, usize))
    requires
        fold_fields_fit(fields_view(fs@)),
    ensures
        r.0 == spec_fold_fields(fields_view(fs@)).0,
        r.1 == spec_fold_fields(fields_view(fs@)).1,
    decreases fs,
{
    let ghost fv = fields_view(fs@);
    proof {
        lemma_fold_fields_fit_prefix(fv);
        lemma_pow2_aligns();
    }
    let mut off: usize = 0;
    let mut max_a: usize = 1;
    let mut i: usize = 0;
    while i < fs.len()
        invariant
            i <= fs@.len(),
            fv == fields_view(fs@),
            forall|j: int| 0 <= j <= fv.len() ==> fold_fields_fit(#[trigger] fv.take(j)),
            off == spec_fold_fields(fv.take(i as int)).0,
            max_a == spec_fold_fields(fv.take(i as int)).1,
            is_power_of_two(1),
            is_power_of_two(4),
            is_power_of_two(8),
        decreases fs@.len() - i,
    {
        let ghost pre = fv.take(i as int + 1);
        proof {
            assert(pre.drop_last() =~= fv.take(i as int));
            assert(pre.last() == fv[i as int]);
            assert(decreases_to!(fs => fs@[i as int].1));
            assert(fold_fields_fit(pre));
            lemma_align_values(fv[i as int].1);
        }
        let (sz, al) = size_align_of(&fs[i].1);
        let al = if al >= 1 { al } else { 1 };
        off = align_up(off, al);
        off = off + sz;
        max_a = if max_a >= al { max_a } else { al };
        i = i + 1;
    }
    proof {
        assert(fv.take(fv.len() as int) =~= fv);
    }
    (off, max_a)
}

pub(crate) proof fn lemma_fold_fields_fit_prefix(fv: Seq<(Seq<char>, TypeV)>)
    requires
        fold_fields_fit(fv),
    ensures
        forall|j: int| 0 <= j <= fv.len() ==> fold_fields_fit(#[trigger] fv.take(j)),
    decreases fv.len(),
{
    if fv.len() > 0 {
        lemma_fold_fields_fit_prefix(fv.drop_last());
        assert forall|j: int| 0 <= j <= fv.len() implies fold_fields_fit(#[trigger] fv.take(j)) by {
            if j == fv.len() {
                assert(fv.take(j) =~= fv);
            } else {
                assert(fv.take(j) =~= fv.drop_last().take(j));
            }
        }
    } else {
        assert forall|j: int| 0 <= j <= fv.len() implies fold_fields_fit(#[trigger] fv.take(j)) by {
            assert(fv.take(j).len() == 0);
        }
    }
}

} // verus!

verus! {

/// The computation of a struct layout over these field types stays within a machine word.
pub open spec fn struct_layout_fits(ts: Seq<TypeV>) -> bool {
    &&& fold_types_fit(ts)
    &&& spec_fold_types(ts).0 + spec_fold_types(ts).1 - 1 <= usize::MAX
}

proof fn lemma_fold_types_fit_prefix(ts: Seq<TypeV>)
    requires
        fold_types_fit(ts),
    ensures
        forall|j: int| 0 <= j <= ts.len() ==> fold_types_fit(#[trigger] ts.take(j)),
    decreases ts.len(),
{
    if ts.len() > 0 {
        lemma_fold_types_fit_prefix(ts.drop_last());
        assert forall|j: int| 0 <= j <= ts.len() implies fold_types_fit(#[trigger] ts.take(j)) by {
            if j == ts.len() {
                assert(ts.take(j) =~= ts);
            } else {
                assert(ts.take(j) =~= ts.drop_last().take(j));
            }
        }
    } else {
        assert forall|j: int| 0 <= j <= ts.len() implies fold_types_fit(#[trigger] ts.take(j)) by {
            assert(ts.take(j).len() == 0);
        }
    }
}

/// Size and alignment of a struct whose fields have the types `instances`, in order.
pub fn layout_of_struct(instances: &[Type]) -> (r: (usize, usize))
    requires
        struct_layout_fits(types_view(instances@)),
    ensures
        r.0 == spec_layout_of_struct(types_view(instances@)).0,
        r.1 == spec_layout_of_struct(types_view(instances@)).1,
{
    if instances.len() == 0 {
        return (0, 1);
    }
    let ghost tv = types_view(instances@);
    proof {
        lemma_fold_types_fit_prefix(tv);
        lemma_pow2_aligns();
    }
    let mut off: usize = 0;
    let mut max_a: usize = 1;
    let mut i: usize = 0;
    while i < instances.len()
        invariant
            i <= instances@.len(),
            tv == types_view(instances@),
            tv.len() == instances@.len(),
            forall|j: int| 0 <= j <= tv.len() ==> fold_types_fit(#[trigger] tv.take(j)),
            off == spec_fold_types(tv.take(i as int)).0,
            max_a == spec_fold_types(tv.take(i as int)).1,
            is_power_of_two(1),
            is_power_of_two(4),
            is_power_of_two(8),
        decreases instances@.len() - i,
    {
        let ghost pre = tv.take(i as int + 1);
        proof {
            assert(pre.drop_last() =~= tv.take(i as int));
            assert(pre.last() == tv[i as int]);
            assert(fold_types_fit(pre));
            lemma_align_values(tv[i as int]);
        }
        let (sz, al) = size_align_of(&instances[i]);
        let al = if al >= 1 { al } else { 1 };
        off = align_up(off, al);
        off = off + sz;
        max_a = if max_a >= al { max_a } else { al };
        i = i + 1;
    }
    proof {
        assert(tv.take(tv.len() as int) =~= tv);
        lemma_fold_types_align(tv);
    }
    let size = align_up(off, max_a);
    (size, max_a)
}

/// Same as `align_up`: rounds `x` up to a multiple of the power of two `align`.
pub fn round_up(x: usize, align: usize) -> (r: usize)
    requires
        is_power_of_two(align),
        x + align - 1 <= usize::MAX,
    ensures
        r == spec_align_up(x as int, align as int),
        r % align == 0,
        x <= r < x + align,
{
    align_up(x, align)
}

/// Placement of one field of a struct.
#[derive(Debug)]
pub struct FieldLayout {
    pub name: String,
    pub offset: usize,
}

/// Size, alignment and field placements of a struct.
pub struct StructLayout {
    pub size: usize,
    pub align: usize,
    pub fields: Vec<FieldLayout>,
}

/// Offset of field `i` when the fields are laid out in order.
pub open spec fn spec_field_offset(fv: Seq<(Seq<char>, TypeV)>, i: int) -> nat
    recommends
        0 <= i < fv.len(),
{
    spec_align_up(
        spec_fold_fields(fv.take(i)).0 as int,
        max_nat(spec_size_align(fv[i].1).1, 1) as int,
    ) as nat
}

/// Size and alignment of a struct with the given fields.
pub open spec fn spec_struct_size_align(fv: Seq<(Seq<char>, TypeV)>) -> (nat, nat) {
    let (o, m) = spec_fold_fields(fv);
    (spec_align_up(o as int, m as int) as nat, m)
}

/// Lays out the fields in order, each at the next offset aligned for its type.
pub fn layout_fields(fields: &[(String, Type)]) -> (r: StructLayout)
    requires
        fold_fields_fit(fields_view(fields@)),
        spec_fold_fields(fields_view(fields@)).0 + spec_fold_fields(fields_view(fields@)).1 - 1
            <= usize::MAX,
    ensures
        r.size == spec_struct_size_align(fields_view(fields@)).0,
        r.align == spec_struct_size_align(fields_view(fields@)).1,
        r.fields@.len() == fields@.len(),
        forall|i: int|
            #![trigger r.fields@[i]]
            0 <= i < fields@.len() ==> r.fields@[i].name@ == fields@[i].0@ && r.fields@[i].offset
                == spec_field_offset(fields_view(fields@), i),
{
    let ghost fv = fields_view(fields@);
    proof {
        lemma_fold_fields_fit_prefix(fv);
        lemma_pow2_aligns();
    }
    let mut off: usize = 0;
    let mut max_a: usize = 1;
    let mut out: Vec<FieldLayout> = Vec::new();
    let mut i: usize = 0;
    while i < fields.len()
        invariant
            i <= fields@.len(),
            fv == fields_view(fields@),
            fv.len() == fields@.len(),
            forall|j: int| 0 <= j <= fv.len() ==> fold_fields_fit(#[trigger] fv.take(j)),
            off == spec_fold_fields(fv.take(i as int)).0,
            max_a == spec_fold_fields(fv.take(i as int)).1,
            out@.len() == i,
            forall|j: int|
                #![trigger out@[j]]
                0 <= j < i ==> out@[j].name@ == fields@[j].0@ && out@[j].offset
                    == spec_field_offset(fv, j),
            is_power_of_two(1),
            is_power_of_two(4),
            is_power_of_two(8),
        decreases fields@.len() - i,
    {
        let ghost pre = fv.take(i as int + 1);
        proof {
            assert(pre.drop_last() =~= fv.take(i as int));
            assert(pre.last() == fv[i as int]);
            assert(fold_fields_fit(pre));
            lemma_align_values(fv[i as int].1);
        }
        let (sz, al) = size_align_of(&fields[i].1);
        let al = if al >= 1 { al } else { 1 };
        off = align_up(off, al);
        out.push(FieldLayout { name: fields[i].0.clone(), offset: off });
        off = off + sz;
        max_a = if max_a >= al { max_a } else { al };
        i = i + 1;
    }
    proof {
        assert(fv.take(fv.len() as int) =~= fv);
        lemma_fold_fields_align(fv);
    }
    let size = align_up(off, max_a);
    StructLayout { size, align: max_a, fields: out }
}

} // verus!

verus! {

proof fn lemma_spec_align_up(x: int, a: int)
    requires
        x >= 0,
        a > 0,
    ensures
        x <= spec_align_up(x, a) < x + a,
        spec_align_up(x, a) % a == 0,
{
    let y = x + a - 1;
    vstd::arithmetic::div_mod::lemma_fundamental_div_mod(y, a);
    vstd::arithmetic::div_mod::lemma_mod_bound(y, a);
    vstd::arithmetic::div_mod::lemma_mod_multiples_basic(y / a, a);
    vstd::arithmetic::mul::lemma_mul_is_commutative(y / a, a);
}

proof fn lemma_fold_step(fv: Seq<(Seq<char>, TypeV)>, i: int)
    requires
        0 <= i < fv.len(),
    ensures
        spec_fold_fields(fv.take(i + 1)).0 == spec_field_offset(fv, i) + spec_size_align(
            fv[i].1,
        ).0,
{
    assert(fv.take(i + 1).drop_last() =~= fv.take(i));
    assert(fv.take(i + 1).last() == fv[i]);
}

/// Every field is placed at an offset that is a multiple of its type's alignment.
pub proof fn law_field_offset_aligned(fv: Seq<(Seq<char>, TypeV)>, i: int)
    requires
        0 <= i < fv.len(),
    ensures
        spec_field_offset(fv, i) % spec_size_align(fv[i].1).1 == 0,
{
    lemma_align_values(fv[i].1);
    lemma_spec_align_up(spec_fold_fields(fv.take(i)).0 as int, spec_size_align(fv[i].1).1 as int);
}

/// Fields do not overlap: each field ends at or before the start of the next one,
/// and the last field ends within the struct's size.
pub proof fn law_fields_disjoint(fv: Seq<(Seq<char>, TypeV)>, i: int)
    requires
        0 <= i < fv.len(),
    ensures
        i + 1 < fv.len() ==> spec_field_offset(fv, i) + spec_size_align(fv[i].1).0
            <= spec_field_offset(fv, i + 1),
        spec_field_offset(fv, i) + spec_size_align(fv[i].1).0 <= spec_struct_size_align(fv).0,
    decreases fv.len() - i,
{
    lemma_fold_step(fv, i);
    lemma_fold_fields_align(fv);
    if i + 1 < fv.len() {
        lemma_align_values(fv[i + 1].1);
        lemma_spec_align_up(
            spec_fold_fields(fv.take(i + 1)).0 as int,
            max_nat(spec_size_align(fv[i + 1].1).1, 1) as int,
        );
        law_fields_disjoint(fv, i + 1);
        lemma_fold_step(fv, i + 1);
    } else {
        assert(fv.take(i + 1) =~= fv);
        lemma_spec_align_up(spec_fold_fields(fv).0 as int, spec_fold_fields(fv).1 as int);
    }
}

/// A struct's size is a multiple of its alignment, and its alignment is a multiple of
/// every field's alignment.
pub proof fn law_struct_size_aligned(fv: Seq<(Seq<char>, TypeV)>)
    ensures
        spec_struct_size_align(fv).0 % spec_struct_size_align(fv).1 == 0,
        forall|i: int|
            0 <= i < fv.len() ==> spec_struct_size_align(fv).1 % spec_size_align(
                #[trigger] fv[i].1,
            ).1 == 0,
    decreases fv.len(),
{
    lemma_fold_fields_align(fv);
    lemma_spec_align_up(spec_fold_fields(fv).0 as int, spec_fold_fields(fv).1 as int);
    if fv.len() > 0 {
        law_struct_size_aligned(fv.drop_last());
        lemma_align_values(fv.last().1);
        assert forall|i: int|
            0 <= i < fv.len() implies spec_struct_size_align(fv).1 % spec_size_align(
                #[trigger] fv[i].1,
            ).1 == 0 by {
            lemma_align_values(fv[i].1);
            lemma_fold_fields_align(fv.drop_last());
            if i < fv.len() - 1 {
                assert(fv[i] == fv.drop_last()[i]);
            }
        }
    }
}

/// The three ways of computing a struct's layout agree: from its fields, from its field
/// types, and as the size and alignment of the struct type itself.
pub proof fn law_layouts_agree(name: Seq<char>, fv: Seq<(Seq<char>, TypeV)>)
    ensures
        spec_size_align(TypeV::Struct { name, instances: fv }) == spec_struct_size_align(fv),
        spec_layout_of_struct(fv.map_values(|p: (Seq<char>, TypeV)| p.1))
            == spec_struct_size_align(fv),
{
    lemma_fold_fields_types(fv);
    if fv.len() == 0 {
        assert(spec_align_up(0, 1) == 0);
    }
}

} // verus!
