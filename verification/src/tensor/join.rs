//! Joining and stacking lists of tensors.

use candle_core::Tensor;
use vstd::prelude::*;

use crate::error::{lift, message, Result};
use crate::tensor::facts::lemma_second_axis;
use crate::tensor::layout::{
    cat, dims, followed, gathers, joined, laid_out, lines_up, total_places, unsqueeze,
};
use crate::tensor::value::{
    count, in_range, inner, resident, tensor_dims, tensor_element, value, values, TensorValue,
};

verus! {

/// What has been joined starts with the first tensor.
proof fn lemma_gathers_first(vs: Seq<TensorValue>, axis: int, parts: Seq<TensorValue>)
    requires
        gathers(vs, axis, parts),
    ensures
        parts.len() == vs.len(),
        parts[0] == vs[0],
{
    reveal(gathers);
}

/// Each tensor comes behind what has been joined before it.
proof fn lemma_gathers_next(vs: Seq<TensorValue>, axis: int, parts: Seq<TensorValue>, k: int)
    requires
        gathers(vs, axis, parts),
        0 <= k < vs.len() - 1,
    ensures
        followed(parts[k], vs[k + 1], axis, parts[k + 1]),
{
    reveal(gathers);
}

/// Joining two tensors puts the second behind the first.
pub proof fn lemma_join_two(parts: Seq<Tensor>, axis: int, r: TensorValue)
    requires
        parts.len() == 2,
        joined(values(parts), axis, r),
    ensures
        followed(value(parts[0]), value(parts[1]), axis, r),
{
    let vs = values(parts);
    assert(vs.len() == 2);
    assert(vs[0] == value(parts[0]) && vs[1] == value(parts[1]));
    let steps = choose|steps: Seq<TensorValue>|
        #[trigger] gathers(vs, axis, steps) && r == steps.last();
    lemma_gathers_first(vs, axis, steps);
    lemma_gathers_next(vs, axis, steps, 0);
}

/// The places of two tensors along an axis.
pub proof fn lemma_two_places(parts: Seq<Tensor>, axis: int)
    requires
        parts.len() == 2,
    ensures
        total_places(values(parts), axis) == tensor_dims(parts[0])[axis] + tensor_dims(
            parts[1],
        )[axis],
{
    let vs = values(parts);
    reveal_with_fuel(total_places, 3);
    assert(vs.drop_last().len() == 1);
    assert(vs.drop_last().last() == value(parts[0]));
    assert(vs.last() == value(parts[1]));
}

/// Two tensors in the memory of the processor that agree but for an axis can be
/// joined along it.
pub proof fn lemma_two_line_up(parts: Seq<Tensor>, axis: int)
    requires
        parts.len() == 2,
        0 <= axis < tensor_dims(parts[0]).len(),
        resident(value(parts[0])),
        resident(value(parts[1])),
        tensor_element(parts[1]) == tensor_element(parts[0]),
        tensor_dims(parts[1]) =~= tensor_dims(parts[0]).update(axis, tensor_dims(parts[1])[axis]),
    ensures
        lines_up(values(parts), axis),
{
    let vs = values(parts);
    assert(vs[0] == value(parts[0]) && vs[1] == value(parts[1]));
    assert(vs[0].dims =~= vs[0].dims.update(axis, vs[0].dims[axis]));
    assert forall|k: int| 0 <= k < vs.len() implies resident(#[trigger] vs[k]) && vs[k].element
        == vs[0].element && vs[k].dims == vs[0].dims.update(axis, vs[k].dims[axis]) by {
        assert(k == 0 || k == 1);
    }
}

/// A joined tensor has the shape of the first, with the places of all of them
/// along the axis.
pub proof fn lemma_joined_shape(vs: Seq<TensorValue>, axis: int, r: TensorValue)
    requires
        joined(vs, axis, r),
        0 <= axis < vs[0].dims.len(),
        total_places(vs, axis) <= usize::MAX,
    ensures
        r.dims == vs[0].dims.update(axis, total_places(vs, axis) as usize),
        r.element == vs[0].element,
        r.location == vs[0].location,
        vs[0].keys.len() == count(vs[0].dims) ==> r.keys.len() == count(r.dims),
{
    let parts = choose|parts: Seq<TensorValue>|
        #[trigger] gathers(vs, axis, parts) && r == parts.last();
    assert(vs.take(vs.len() - 1 + 1) =~= vs);
    lemma_gathers_first(vs, axis, parts);
    lemma_part_shape(vs, axis, parts, vs.len() - 1);
}

proof fn lemma_part_shape(vs: Seq<TensorValue>, axis: int, parts: Seq<TensorValue>, k: int)
    requires
        gathers(vs, axis, parts),
        0 <= k < vs.len(),
        0 <= axis < vs[0].dims.len(),
        total_places(vs.take(k + 1), axis) <= usize::MAX,
    ensures
        parts[k].dims == vs[0].dims.update(axis, total_places(vs.take(k + 1), axis) as usize),
        parts[k].element == vs[0].element,
        parts[k].location == vs[0].location,
        vs[0].keys.len() == count(vs[0].dims) ==> parts[k].keys.len() == count(parts[k].dims),
    decreases k,
{
    let now = vs.take(k + 1);
    assert(now.drop_last() =~= vs.take(k));
    assert(now.last() == vs[k]);
    lemma_gathers_first(vs, axis, parts);
    if k == 0 {
        assert(total_places(vs.take(0), axis) == 0);
        assert(parts[0].dims =~= vs[0].dims.update(axis, total_places(now, axis) as usize));
    } else {
        lemma_part_shape(vs, axis, parts, k - 1);
        lemma_gathers_next(vs, axis, parts, k - 1);
        assert(parts[k].dims =~= vs[0].dims.update(axis, total_places(now, axis) as usize));
    }
}

/// Tensors that were joined have the shape of the first on every other axis.
pub proof fn lemma_joined_parts(vs: Seq<TensorValue>, axis: int, r: TensorValue, k: int)
    requires
        joined(vs, axis, r),
        0 <= axis < vs[0].dims.len(),
        0 <= k < vs.len(),
    ensures
        vs[k].dims == vs[0].dims.update(axis, vs[k].dims[axis]),
{
    let parts = choose|parts: Seq<TensorValue>|
        #[trigger] gathers(vs, axis, parts) && r == parts.last();
    if k == 0 {
        assert(vs[0].dims =~= vs[0].dims.update(axis, vs[0].dims[axis]));
    } else {
        lemma_part_axes(vs, axis, parts, k - 1);
        lemma_gathers_next(vs, axis, parts, k - 1);
        assert(vs[k].dims =~= vs[0].dims.update(axis, vs[k].dims[axis]));
    }
}

proof fn lemma_part_axes(vs: Seq<TensorValue>, axis: int, parts: Seq<TensorValue>, k: int)
    requires
        gathers(vs, axis, parts),
        0 <= k < vs.len(),
        0 <= axis < vs[0].dims.len(),
    ensures
        parts[k].dims == vs[0].dims.update(axis, parts[k].dims[axis]),
    decreases k,
{
    lemma_gathers_first(vs, axis, parts);
    if k == 0 {
        assert(parts[0].dims =~= vs[0].dims.update(axis, parts[0].dims[axis]));
    } else {
        lemma_part_axes(vs, axis, parts, k - 1);
        lemma_gathers_next(vs, axis, parts, k - 1);
        assert(parts[k].dims =~= vs[0].dims.update(axis, parts[k].dims[axis]));
    }
}

/// A tensor with a new axis of size one.
pub open spec fn with_axis(v: TensorValue, axis: int) -> TensorValue {
    v.shaped(v.dims.insert(axis, 1))
}

/// Tensors side by side along a new axis.
pub open spec fn stacked(vs: Seq<TensorValue>, axis: int, r: TensorValue) -> bool {
    joined(vs.map_values(|v: TensorValue| with_axis(v, axis)), axis, r)
}

/// What is said of a list that cannot be stacked.
pub open spec fn stack_complaint(vs: Seq<TensorValue>, axis: int) -> Option<Seq<char>> {
    if vs.len() == 0 {
        Some("cannot stack an empty tensor list"@)
    } else if exists|k: int| 0 <= k < vs.len() && (#[trigger] vs[k]).dims.len() < axis {
        Some("cannot stack tensors with too few axes"@)
    } else {
        None
    }
}

/// Whether tensors are in the memory of the processor, of one shape and of one
/// element type.
pub open spec fn alike(vs: Seq<TensorValue>) -> bool {
    forall|k: int|
        0 <= k < vs.len() ==> resident(#[trigger] vs[k]) && vs[k].element == vs[0].element
            && vs[k].dims == vs[0].dims
}

/// Puts tensors side by side along a new axis.
pub fn stack(ts: &[Tensor], axis: usize) -> (r: Result<Tensor>)
    ensures
        stack_complaint(values(ts@), axis as int) matches Some(text) ==> r is Err && r->Err_0.says(
            text,
        ),
        stack_complaint(values(ts@), axis as int) is None ==> (r matches Err(e) ==> e is Backend),
        r matches Ok(o) ==> stacked(values(ts@), axis as int, value(o)),
        stack_complaint(values(ts@), axis as int) is None && alike(values(ts@)) ==> r is Ok,
        r matches Ok(o) ==> (forall|k: int| 0 <= k < ts@.len() ==> laid_out(#[trigger] ts@[k]))
            ==> laid_out(o),
{
    if ts.len() == 0 {
        return Err(message("cannot stack an empty tensor list"));
    }
    let ghost vs = values(ts@);
    let ghost wide = vs.map_values(|v: TensorValue| with_axis(v, axis as int));
    let mut out: Vec<Tensor> = Vec::new();
    let mut i: usize = 0;
    while i < ts.len()
        invariant
            i <= ts@.len(),
            vs == values(ts@),
            vs.len() == ts@.len(),
            wide == vs.map_values(|v: TensorValue| with_axis(v, axis as int)),
            out@.len() == i,
            values(out@) == wide.take(i as int),
            forall|k: int| 0 <= k < i ==> (#[trigger] vs[k]).dims.len() >= axis,
            forall|k: int| 0 <= k < i && laid_out(ts@[k]) ==> laid_out(#[trigger] out@[k]),
            ts@.len() > 0,
        decreases ts@.len() - i,
    {
        let d = dims(&ts[i]);
        if d.len() < axis {
            proof {
                assert(vs[i as int].dims.len() < axis);
            }
            return Err(message("cannot stack tensors with too few axes"));
        }
        let t = lift(unsqueeze(&ts[i], axis))?;
        out.push(t);
        proof {
            assert(vs[i as int] == value(ts@[i as int]));
            assert(values(out@) =~= wide.take(i + 1));
        }
        i = i + 1;
    }
    proof {
        assert(wide.take(i as int) =~= wide);
        assert forall|k: int| 0 <= k < wide.len() implies (#[trigger] wide[k]).dims[axis as int]
            == 1 by {
            assert(wide[k] == with_axis(vs[k], axis as int));
        }
        lemma_single_places(wide, axis as int);
        if alike(vs) {
            assert(wide[0] == with_axis(vs[0], axis as int));
            assert(wide[0].dims =~= wide[0].dims.update(axis as int, 1));
            assert forall|k: int| 0 <= k < wide.len() implies resident(#[trigger] wide[k])
                && wide[k].element == wide[0].element && wide[k].dims == wide[0].dims.update(
                axis as int,
                wide[k].dims[axis as int],
            ) by {
                assert(wide[k] == with_axis(vs[k], axis as int));
                assert(resident(vs[k]));
            }
            assert(lines_up(wide, axis as int));
        }
    }
    lift(cat(out.as_slice(), axis))
}

/// A stack of tensors of one shape has one more axis, with a place for each.
pub proof fn lemma_stacked_shape(vs: Seq<TensorValue>, axis: int, r: TensorValue)
    requires
        stacked(vs, axis, r),
        0 < vs.len() <= usize::MAX,
        0 <= axis <= vs[0].dims.len(),
        forall|k: int| 0 <= k < vs.len() ==> (#[trigger] vs[k]).dims == vs[0].dims,
    ensures
        r.dims == vs[0].dims.insert(axis, vs.len() as usize),
        r.element == vs[0].element,
        r.location == vs[0].location,
{
    let wide = vs.map_values(|v: TensorValue| with_axis(v, axis));
    assert forall|k: int| 0 <= k < wide.len() implies (#[trigger] wide[k]).dims[axis] == 1 by {
        assert(wide[k] == with_axis(vs[k], axis));
    }
    lemma_single_places(wide, axis);
    assert(wide[0] == with_axis(vs[0], axis));
    lemma_joined_shape(wide, axis, r);
    assert(wide[0].dims.update(axis, vs.len() as usize) =~= vs[0].dims.insert(
        axis,
        vs.len() as usize,
    ));
}

proof fn lemma_single_places(vs: Seq<TensorValue>, axis: int)
    requires
        forall|k: int| 0 <= k < vs.len() ==> (#[trigger] vs[k]).dims[axis] == 1,
    ensures
        total_places(vs, axis) == vs.len(),
    decreases vs.len(),
{
    if vs.len() > 0 {
        let head = vs.drop_last();
        assert forall|k: int| 0 <= k < head.len() implies (#[trigger] head[k]).dims[axis] == 1 by {
            assert(head[k] == vs[k]);
        }
        lemma_single_places(head, axis);
        assert(vs.last() == vs[vs.len() - 1]);
    }
}

/// Tensors that were stacked have one shape.
pub proof fn lemma_stacked_parts(vs: Seq<TensorValue>, axis: int, r: TensorValue, k: int)
    requires
        stacked(vs, axis, r),
        0 <= k < vs.len(),
        forall|j: int| 0 <= j < vs.len() ==> 0 <= axis <= (#[trigger] vs[j]).dims.len(),
    ensures
        vs[k].dims == vs[0].dims,
{
    let wide = vs.map_values(|v: TensorValue| with_axis(v, axis));
    assert(wide[0] == with_axis(vs[0], axis));
    assert(wide[k] == with_axis(vs[k], axis));
    lemma_joined_parts(wide, axis, r, k);
    assert(wide[0].dims.update(axis, 1) =~= wide[0].dims);
    assert(wide[0].dims.remove(axis) =~= vs[0].dims);
    assert(wide[k].dims.remove(axis) =~= vs[k].dims);
}

/// Rows `[rows, width]` that were stacked along a new second axis keep their
/// elements: place `k` of the axis holds the rows of tensor `k`.
pub proof fn lemma_stacked_rows(
    vs: Seq<TensorValue>,
    r: TensorValue,
    rows: usize,
    width: usize,
    k: int,
    o: int,
    i: int,
)
    requires
        stacked(vs, 1, r),
        0 < vs.len() <= usize::MAX,
        forall|j: int| 0 <= j < vs.len() ==> (#[trigger] vs[j]).dims == seq![rows, width],
        0 <= k < vs.len(),
        0 <= o < rows,
        0 <= i < width,
    ensures
        r.dims == seq![rows, vs.len() as usize, width],
        r.at(1, o, k, i) == vs[k].keys[o * width + i],
{
    let wide = vs.map_values(|v: TensorValue| with_axis(v, 1));
    let parts = choose|parts: Seq<TensorValue>|
        #[trigger] gathers(wide, 1, parts) && r == parts.last();
    lemma_gathers_first(wide, 1, parts);
    lemma_stacked_shape(vs, 1, r);
    assert(vs[0].dims.insert(1, vs.len() as usize) =~= seq![rows, vs.len() as usize, width]);
    assert forall|j: int| 0 <= j < vs.len() implies (#[trigger] wide[j]).dims == seq![
        rows,
        1usize,
        width,
    ] && wide[j].at(1, o, 0, i) == vs[j].keys[o * width + i] by {
        assert(wide[j] == with_axis(vs[j], 1));
        assert(wide[j].dims =~= seq![rows, 1usize, width]);
        lemma_second_axis(rows, 1, 0, width);
        let first = o * wide[j].dims[1] + 0;
        assert(wide[j].dims[1] == 1);
        vstd::arithmetic::mul::lemma_mul_basics(o);
        assert(first == o);
        assert(first * inner(wide[j].dims, 1) + i == o * width + i);
    }
    lemma_stacked_so_far(vs, wide, parts, rows, width, vs.len() - 1, k, o, i);
}

/// One more tensor behind those of a stack leaves them and adds its rows.
proof fn lemma_stack_grows(
    before: TensorValue,
    next: TensorValue,
    r: TensorValue,
    rows: usize,
    n: usize,
    width: usize,
    k: int,
    o: int,
    i: int,
)
    requires
        followed(before, next, 1, r),
        before.dims == seq![rows, n, width],
        next.dims == seq![rows, 1usize, width],
        n < usize::MAX,
        0 <= k <= n,
        0 <= o < rows,
        0 <= i < width,
    ensures
        r.dims == seq![rows, (n + 1) as usize, width],
        k < n ==> r.at(1, o, k, i) == before.at(1, o, k, i),
        k == n ==> r.at(1, o, k, i) == next.at(1, o, 0, i),
{
    let reach = (n + 1) as usize;
    assert(r.dims =~= seq![rows, reach, width]);
    lemma_second_axis(rows, reach, 0, width);
    assert(in_range(r.dims, 1, o, k, i));
}

proof fn lemma_stacked_so_far(
    vs: Seq<TensorValue>,
    wide: Seq<TensorValue>,
    parts: Seq<TensorValue>,
    rows: usize,
    width: usize,
    last: int,
    k: int,
    o: int,
    i: int,
)
    requires
        gathers(wide, 1, parts),
        wide.len() == vs.len() <= usize::MAX,
        forall|j: int|
            0 <= j < vs.len() ==> (#[trigger] wide[j]).dims == seq![rows, 1usize, width]
                && wide[j].at(1, o, 0, i) == vs[j].keys[o * width + i],
        0 <= k <= last < vs.len(),
        0 <= o < rows,
        0 <= i < width,
    ensures
        parts[last].dims == seq![rows, (last + 1) as usize, width],
        parts[last].at(1, o, k, i) == vs[k].keys[o * width + i],
    decreases last,
{
    lemma_gathers_first(wide, 1, parts);
    assert(wide[0].dims == seq![rows, 1usize, width]);
    if last > 0 {
        let before = last - 1;
        let inside = if k < last {
            k
        } else {
            before
        };
        lemma_stacked_so_far(vs, wide, parts, rows, width, before, inside, o, i);
        lemma_gathers_next(wide, 1, parts, before);
        assert(wide[last].dims == seq![rows, 1usize, width]);
        lemma_stack_grows(
            parts[before],
            wide[last],
            parts[last],
            rows,
            last as usize,
            width,
            k,
            o,
            i,
        );
    }
}

} // verus!
