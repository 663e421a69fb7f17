//! Training losses on sequences of embeddings.

use candle_core::Tensor;
use vstd::prelude::*;

use crate::error::{lift, message, Result, SwmError};
use crate::models::lewm::block::ONE;
use crate::models::lewm::embedder::swapped;
use crate::scalar::{f32_key, F32, F64};
use crate::tensor::arithmetic::{
    affine, affine_of, average_of, difference_of, divide, identity, identity_matrix,
    is_matrix_product, is_negation, is_ramp, like, matmul, maximum, maximum_of, mean, mean_all,
    multiply, negate, overall_mean_of, product_of, quotient_of, relu, root_of, square, square_of,
    square_root, subtract, sum, total_of, variance, variance_of,
};
use crate::tensor::facts::lemma_counts;
use crate::tensor::layout::{
    broadcast_as, contiguous, device_of, dims, dtype, element, narrow, narrowed, permute, permuted,
    unsqueeze,
};
use crate::tensor::make::{double, from_f32, from_f64};
use crate::tensor::ranks::{dims3, element_count, rank_complaint};
use crate::tensor::share::{is_share, share_of};
use crate::tensor::value::{
    count, hosted, is_float, matching, spread, spreads, tensor_dims, tensor_element, tensor_keys,
    tensor_location, value, ElementType, Location, TensorValue,
};

verus! {

/// The bits of 1e-4.
pub const VC_REG_EPS: u64 = 0x3f1a_36e2_eb1c_432d;

/// The bits of 1e-8 in single precision.
pub const COSINE_EPS: u32 = 0x322b_cc77;

/// The bits of 1.0 in single precision.
pub const SINGLE_ONE: u32 = 0x3f80_0000;

/// The terms of the variance and covariance loss.
#[derive(Debug)]
pub struct VcRegOutput {
    pub std_loss: Tensor,
    pub std_t_loss: Tensor,
    pub cov_loss: Tensor,
    pub cov_t_loss: Tensor,
}

/// The terms of the latent dynamics loss.
#[derive(Debug)]
pub struct PldmLossOutput {
    pub idm_loss: Option<Tensor>,
    pub temp_align_loss: Tensor,
    pub std_loss: Tensor,
    pub std_t_loss: Tensor,
    pub cov_loss: Tensor,
    pub cov_t_loss: Tensor,
}

/// The first two of three axes change places.
pub open spec fn first_swapped() -> Seq<usize> {
    seq![1usize, 0, 2]
}

/// The mean squared difference of two tensors.
pub open spec fn is_mse(a: TensorValue, b: TensorValue, r: TensorValue) -> bool {
    exists|gap: TensorValue, squares: TensorValue|
        #[trigger] difference_of(a, b, gap) && #[trigger] square_of(gap, squares)
            && overall_mean_of(squares, r)
}

/// One number, of the element type and at the place of a tensor.
pub open spec fn sums_up(x: TensorValue, r: TensorValue) -> bool {
    r.dims.len() == 0 && r.element == x.element && r.location == x.location
}

/// The mean squared difference of two tensors, which must have one shape.
pub fn mse_loss(lhs: &Tensor, rhs: &Tensor) -> (r: Result<Tensor>)
    ensures
        r matches Ok(o) ==> is_mse(value(*lhs), value(*rhs), value(o)) && value(o) == value(
            *lhs,
        ).alongside(Seq::empty(), tensor_keys(o)),
        r matches Err(e) ==> e is Backend,
        hosted(value(*lhs)) && matching(value(*lhs), value(*rhs)) ==> r is Ok,
{
    let gap = lift(subtract(lhs, rhs))?;
    let squares = lift(square(&gap))?;
    let out = lift(mean_all(&squares))?;
    proof {
        assert(difference_of(value(*lhs), value(*rhs), value(gap)));
        assert(square_of(value(gap), value(squares)));
    }
    Ok(out)
}

/// A single-precision number as a tensor of two axes.
pub open spec fn lone(bits: u32, location: Location) -> TensorValue {
    TensorValue {
        dims: seq![1usize, 1],
        keys: seq![f32_key(bits)],
        element: ElementType::F32,
        location,
    }
}

/// A single-precision number at every place of a shape of two axes.
fn everywhere(bits: u32, like: &Tensor) -> (r: Result<Tensor>)
    requires
        tensor_dims(*like).len() == 2,
        count(tensor_dims(*like)) <= usize::MAX,
    ensures
        r matches Ok(o) ==> value(o) == spread(
            lone(bits, tensor_location(*like)),
            tensor_dims(*like),
        ),
        r matches Err(e) ==> e is Backend,
        tensor_location(*like) is Cpu ==> r is Ok,
{
    let values: [F32; 1] = [F32::from_bits(bits)];
    let shape: [usize; 2] = [1, 1];
    let target = dims(like);
    proof {
        assert(shape@ =~= seq![1usize, 1]);
        lemma_counts(1, 1, 0, 0);
        assert(values@.map_values(|x: F32| x.key()) =~= seq![f32_key(bits)]);
        assert(spreads(shape@, target@));
    }
    let one = lift(from_f32(&values, &shape, device_of(like)))?;
    lift(broadcast_as(&one, target.as_slice()))
}

/// How far the deviations over the first axis stay below one: for each step and
/// component the shortfall, with the mean taken over all of them.
pub open spec fn is_std_loss(z: TensorValue, r: TensorValue) -> bool {
    exists|
        turned: TensorValue,
        var: TensorValue,
        raised: TensorValue,
        std: TensorValue,
        short: TensorValue,
        kept: TensorValue,
        steps: TensorValue,
    |
        #[trigger] permuted(z, first_swapped(), turned) && #[trigger] variance_of(turned, 1, var)
            && #[trigger] affine_of(
            var,
            double(F64 { bits: ONE }),
            double(F64 { bits: VC_REG_EPS }),
            raised,
        ) && #[trigger] root_of(raised, std) && #[trigger] difference_of(
            spread(lone(SINGLE_ONE, std.location), std.dims),
            std,
            short,
        ) && #[trigger] is_ramp(short, kept) && like(short, kept) && #[trigger] average_of(
            kept,
            1,
            steps,
        ) && overall_mean_of(steps, r)
}

fn swap_first(z: &Tensor) -> (r: Result<Tensor>)
    requires
        tensor_dims(*z).len() == 3,
    ensures
        r matches Ok(o) ==> permuted(value(*z), first_swapped(), value(o)) && value(o) == value(
            *z,
        ).alongside(
            seq![tensor_dims(*z)[1], tensor_dims(*z)[0], tensor_dims(*z)[2]],
            tensor_keys(o),
        ),
        r matches Err(e) ==> e is Backend,
        r is Ok,
{
    let order = vec![1, 0, 2];
    proof {
        assert(order@ =~= first_swapped());
    }
    let out = lift(permute(z, order))?;
    proof {
        let d = tensor_dims(*z);
        assert(tensor_dims(out) =~= seq![d[1], d[0], d[2]]);
    }
    Ok(out)
}

fn std_loss(z: &Tensor) -> (r: Result<Tensor>)
    requires
        tensor_dims(*z).len() == 3,
        tensor_dims(*z)[0] >= 1,
        count(seq![tensor_dims(*z)[1], tensor_dims(*z)[2]]) <= usize::MAX,
    ensures
        r matches Ok(o) ==> is_std_loss(value(*z), value(o)) && tensor_dims(o).len() == 0,
        r matches Err(e) ==> e is Backend,
        tensor_location(*z) is Cpu && tensor_element(*z) is F32 ==> r is Ok,
        r matches Ok(o) ==> tensor_element(*z) is F32 ==> sums_up(value(*z), value(o)),
{
    let one = lift(from_f64(F64::from_bits(ONE)))?;
    let epsilon = lift(from_f64(F64::from_bits(VC_REG_EPS)))?;
    let turned = swap_first(z)?;
    let var = lift(variance(&turned, 1))?;
    let raised = lift(affine(&var, &one, &epsilon))?;
    let std = lift(square_root(&raised))?;
    proof {
        let d = tensor_dims(*z);
        assert(tensor_dims(std) =~= seq![d[1], d[2]]);
    }
    let ones = everywhere(SINGLE_ONE, &std)?;
    let short = lift(subtract(&ones, &std))?;
    let kept = lift(relu(&short))?;
    let steps = lift(mean(&kept, 1))?;
    let out = lift(mean_all(&steps))?;
    proof {
        assert(permuted(value(*z), first_swapped(), value(turned)));
        assert(variance_of(value(turned), 1, value(var)));
        assert(affine_of(
            value(var),
            double(F64 { bits: ONE }),
            double(F64 { bits: VC_REG_EPS }),
            value(raised),
        ));
        assert(root_of(value(raised), value(std)));
        assert(difference_of(
            spread(lone(SINGLE_ONE, value(std).location), value(std).dims),
            value(std),
            value(short),
        ));
        assert(is_ramp(value(short), value(kept)));
        assert(average_of(value(kept), 1, value(steps)));
    }
    Ok(out)
}

/// The covariance of the components over the first axis, for each step.
pub open spec fn is_covariance(z: TensorValue, r: TensorValue) -> bool {
    exists|turned: TensorValue, flipped: TensorValue, product: TensorValue, share: TensorValue|
        #[trigger] permuted(z, first_swapped(), turned) && #[trigger] permuted(
            turned,
            swapped(),
            flipped,
        ) && #[trigger] is_matrix_product(flipped, turned, product) && #[trigger] is_share(
            (z.dims[0] - 1) as u64,
            share,
        ) && affine_of(product, share, double(F64 { bits: 0 }), r)
}

fn covariance(z: &Tensor) -> (r: Result<Tensor>)
    requires
        tensor_dims(*z).len() == 3,
        1 <= tensor_dims(*z)[0] <= i64::MAX,
    ensures
        r matches Ok(o) ==> is_covariance(value(*z), value(o)) && value(o) == value(*z).alongside(
            seq![tensor_dims(*z)[1], tensor_dims(*z)[2], tensor_dims(*z)[2]],
            tensor_keys(o),
        ),
        r matches Err(e) ==> e is Backend,
        hosted(value(*z)) ==> r is Ok,
{
    let d = dims(z);
    let swap = swap_first(z)?;
    let turned = lift(contiguous(&swap))?;
    let order = vec![0, 2, 1];
    proof {
        assert(order@ =~= swapped());
    }
    let flip = lift(permute(&turned, order))?;
    let flipped = lift(contiguous(&flip))?;
    proof {
        assert(tensor_dims(flipped) =~= seq![d@[1], d@[2], d@[0]]);
    }
    let product = lift(matmul(&flipped, &turned))?;
    let share = share_of((d[0] - 1) as u64)?;
    let zero = lift(from_f64(F64::from_bits(0)))?;
    let out = lift(affine(&product, &share, &zero))?;
    proof {
        assert(permuted(value(*z), first_swapped(), value(turned)));
        assert(permuted(value(turned), swapped(), value(flipped)));
        assert(is_matrix_product(value(flipped), value(turned), value(product)));
        assert(is_share((d@[0] - 1) as u64, value(share)));
        assert(tensor_dims(out) =~= seq![d@[1], d@[2], d@[2]]);
    }
    Ok(out)
}

/// The sum of all elements of each matrix.
pub open spec fn is_matrix_total(x: TensorValue, r: TensorValue) -> bool {
    exists|rows: TensorValue| #[trigger] total_of(x, 2, rows) && total_of(rows, 1, r)
}

fn matrix_total(x: &Tensor) -> (r: Result<Tensor>)
    requires
        tensor_dims(*x).len() == 3,
    ensures
        r matches Ok(o) ==> is_matrix_total(value(*x), value(o)) && value(o) == value(*x).alongside(
            seq![tensor_dims(*x)[0]],
            tensor_keys(o),
        ),
        r matches Err(e) ==> e is Backend,
        hosted(value(*x)) ==> r is Ok,
{
    let rows = lift(sum(x, 2))?;
    let out = lift(sum(&rows, 1))?;
    proof {
        assert(total_of(value(*x), 2, value(rows)));
        assert(tensor_dims(out) =~= seq![tensor_dims(*x)[0]]);
    }
    Ok(out)
}

/// The identity matrix once for each of some matrices.
pub open spec fn diagonals(v: TensorValue) -> TensorValue {
    let d = v.dims[1];
    spread(identity(d, v.element, v.location).shaped(seq![1usize, d, d]), v.dims)
}

/// The sum of the elements of each matrix outside its diagonal.
pub open spec fn is_off_diagonal(squares: TensorValue, r: TensorValue) -> bool {
    exists|total: TensorValue, kept: TensorValue, diagonal: TensorValue|
        #[trigger] is_matrix_total(squares, total) && #[trigger] product_of(
            squares,
            diagonals(squares),
            kept,
        ) && #[trigger] is_matrix_total(kept, diagonal) && difference_of(total, diagonal, r)
}

fn off_diagonal(squares: &Tensor, d: usize) -> (r: Result<Tensor>)
    requires
        tensor_dims(*squares).len() == 3,
        tensor_dims(*squares)[1] == d,
        tensor_dims(*squares)[2] == d,
        d <= u32::MAX,
        d * d <= usize::MAX,
        count(tensor_dims(*squares)) <= usize::MAX,
        is_float(tensor_element(*squares)),
    ensures
        r matches Ok(o) ==> is_off_diagonal(value(*squares), value(o)) && value(o) == value(
            *squares,
        ).alongside(seq![tensor_dims(*squares)[0]], tensor_keys(o)),
        r matches Err(e) ==> e is Backend,
        d > 0 && tensor_location(*squares) is Cpu ==> r is Ok,
{
    let shape = dims(squares);
    let total = matrix_total(squares)?;
    let eye = lift(identity_matrix(d, dtype(squares), device_of(squares)))?;
    let one = lift(unsqueeze(&eye, 0))?;
    proof {
        assert(tensor_dims(eye).insert(0, 1) =~= seq![1usize, d, d]);
        assert(spreads(tensor_dims(one), shape@));
    }
    let wide = lift(broadcast_as(&one, shape.as_slice()))?;
    let kept = lift(multiply(squares, &wide))?;
    let diagonal = matrix_total(&kept)?;
    let out = lift(subtract(&total, &diagonal))?;
    proof {
        assert(is_matrix_total(value(*squares), value(total)));
        assert(value(wide) == diagonals(value(*squares)));
        assert(product_of(value(*squares), diagonals(value(*squares)), value(kept)));
        assert(is_matrix_total(value(kept), value(diagonal)));
    }
    Ok(out)
}

/// How far the components go together over the first axis: the squares of the
/// covariances outside the diagonal, with the mean taken over all of them.
pub open spec fn is_cov_loss(z: TensorValue, r: TensorValue) -> bool {
    let d = z.dims[2];
    exists|
        cov: TensorValue,
        squares: TensorValue,
        off: TensorValue,
        share: TensorValue,
        steps: TensorValue,
    |
        #[trigger] is_covariance(z, cov) && #[trigger] square_of(cov, squares)
            && #[trigger] is_off_diagonal(squares, off) && #[trigger] is_share(
            (d * d - d) as u64,
            share,
        ) && #[trigger] affine_of(off, share, double(F64 { bits: 0 }), steps) && overall_mean_of(
            steps,
            r,
        )
}

fn cov_loss(z: &Tensor) -> (r: Result<Tensor>)
    requires
        tensor_dims(*z).len() == 3,
        1 <= tensor_dims(*z)[0] <= i64::MAX,
        tensor_dims(*z)[2] >= 1,
        tensor_dims(*z)[2] <= u32::MAX,
        tensor_dims(*z)[2] * tensor_dims(*z)[2] <= usize::MAX,
        tensor_dims(*z)[2] * tensor_dims(*z)[2] <= i64::MAX,
        count(seq![tensor_dims(*z)[1], tensor_dims(*z)[2], tensor_dims(*z)[2]]) <= usize::MAX,
        is_float(tensor_element(*z)),
    ensures
        r matches Ok(o) ==> is_cov_loss(value(*z), value(o)) && tensor_dims(o).len() == 0,
        r matches Err(e) ==> e is Backend,
        tensor_location(*z) is Cpu ==> r is Ok,
        r matches Ok(o) ==> sums_up(value(*z), value(o)),
{
    let shape = dims(z);
    let d: usize = shape[2];
    let cov = covariance(z)?;
    let squares = lift(square(&cov))?;
    let off = off_diagonal(&squares, d)?;
    proof {
        assert(0 <= d * d - d <= d * d) by (nonlinear_arith)
            requires
                d >= 1,
        ;
    }
    let share = share_of((d * d - d) as u64)?;
    let zero = lift(from_f64(F64::from_bits(0)))?;
    let steps = lift(affine(&off, &share, &zero))?;
    let out = lift(mean_all(&steps))?;
    proof {
        assert(is_covariance(value(*z), value(cov)));
        assert(square_of(value(cov), value(squares)));
        assert(is_off_diagonal(value(squares), value(off)));
        assert(is_share((d * d - d) as u64, value(share)));
        assert(affine_of(value(off), value(share), double(F64 { bits: 0 }), value(steps)));
    }
    Ok(out)
}

/// Whether the shapes inside the variance and covariance loss are within reach.
pub open spec fn vc_fits(b: usize, t: usize, d: usize) -> bool {
    &&& b <= i64::MAX
    &&& t <= i64::MAX
    &&& d <= u32::MAX
    &&& d * d <= usize::MAX
    &&& d * d <= i64::MAX
    &&& count(seq![b, t, d]) <= usize::MAX
    &&& count(seq![t, d]) <= usize::MAX
    &&& count(seq![b, d]) <= usize::MAX
    &&& count(seq![t, d, d]) <= usize::MAX
    &&& count(seq![b, d, d]) <= usize::MAX
}

/// What is wrong with embeddings for the variance and covariance loss.
pub open spec fn vc_complaint(v: TensorValue) -> Option<Seq<char>> {
    if v.dims.len() != 3 {
        Some(rank_complaint(3, v.dims))
    } else if v.dims[0] < 2 || v.dims[1] < 2 || v.dims[2] < 2 {
        Some("VCReg requires batch, time, and latent dimensions of at least two"@)
    } else if !vc_fits(v.dims[0], v.dims[1], v.dims[2]) {
        Some("VCReg shape overflowed"@)
    } else if !is_float(v.element) {
        Some("VCReg requires floating-point latents"@)
    } else {
        None
    }
}

/// Embeddings `[batch, time, width]` less their mean over the batch.
pub open spec fn is_centred(z: TensorValue, r: TensorValue) -> bool {
    exists|mean: TensorValue|
        #[trigger] average_of(z, 0, mean) && difference_of(
            z,
            spread(mean.shaped(seq![1usize, z.dims[1], z.dims[2]]), z.dims),
            r,
        )
}

/// The variance and covariance loss of embeddings, over the batch and over time.
pub open spec fn is_vc_reg(z: TensorValue, r: VcRegOutput) -> bool {
    exists|centred: TensorValue, turned: TensorValue|
        #[trigger] is_centred(z, centred) && #[trigger] permuted(centred, first_swapped(), turned)
            && is_std_loss(centred, value(r.std_loss)) && is_std_loss(turned, value(r.std_t_loss))
            && is_cov_loss(centred, value(r.cov_loss)) && is_cov_loss(turned, value(r.cov_t_loss))
}

fn check_vc(z: &Tensor) -> (r: Result<(usize, usize, usize)>)
    ensures
        vc_complaint(value(*z)) matches Some(text) ==> r is Err && r->Err_0.says(text),
        vc_complaint(value(*z)) is None ==> r is Ok,
        r matches Ok(d) ==> tensor_dims(*z) == seq![d.0, d.1, d.2] && vc_fits(d.0, d.1, d.2)
            && d.0 >= 2 && d.1 >= 2 && d.2 >= 2 && is_float(tensor_element(*z)),
{
    let (b, t, d) = dims3(z)?;
    if b < 2 || t < 2 || d < 2 {
        return Err(
            message("VCReg requires batch, time, and latent dimensions of at least two"),
        );
    }
    let whole: [usize; 3] = [b, t, d];
    let over_time: [usize; 2] = [t, d];
    let over_batch: [usize; 2] = [b, d];
    let squares_t: [usize; 3] = [t, d, d];
    let squares_b: [usize; 3] = [b, d, d];
    proof {
        assert(whole@ =~= seq![b, t, d]);
        assert(over_time@ =~= seq![t, d]);
        assert(over_batch@ =~= seq![b, d]);
        assert(squares_t@ =~= seq![t, d, d]);
        assert(squares_b@ =~= seq![b, d, d]);
    }
    let area: usize = match d.checked_mul(d) {
        Some(n) => n,
        None => {
            return Err(message("VCReg shape overflowed"));
        },
    };
    let limit: u64 = i64::MAX as u64;
    if b as u64 > limit || t as u64 > limit || area as u64 > limit || d > u32::MAX as usize {
        return Err(message("VCReg shape overflowed"));
    }
    if element_count(&whole).is_none() || element_count(&over_time).is_none() || element_count(
        &over_batch,
    ).is_none() || element_count(&squares_t).is_none() || element_count(&squares_b).is_none() {
        return Err(message("VCReg shape overflowed"));
    }
    match element(dtype(z)) {
        ElementType::BF16 | ElementType::F16 | ElementType::F32 | ElementType::F64 => Ok((b, t, d)),
        _ => Err(message("VCReg requires floating-point latents")),
    }
}

fn centre(z: &Tensor, b: usize, t: usize, d: usize) -> (r: Result<Tensor>)
    requires
        tensor_dims(*z) == seq![b, t, d],
        count(seq![b, t, d]) <= usize::MAX,
    ensures
        r matches Ok(o) ==> is_centred(value(*z), value(o)) && like(value(*z), value(o)),
        r matches Err(e) ==> e is Backend,
        hosted(value(*z)) ==> r is Ok,
{
    let average = lift(mean(z, 0))?;
    let row = lift(unsqueeze(&average, 0))?;
    let shape: [usize; 3] = [b, t, d];
    proof {
        assert(shape@ =~= seq![b, t, d]);
        assert(tensor_dims(average).insert(0, 1) =~= seq![1usize, t, d]);
        assert(spreads(tensor_dims(row), shape@));
    }
    let wide = lift(broadcast_as(&row, &shape))?;
    let out = lift(subtract(z, &wide))?;
    proof {
        assert(average_of(value(*z), 0, value(average)));
    }
    Ok(out)
}

/// The variance and covariance loss of embeddings `[batch, time, width]`.
pub fn vc_reg(z: &Tensor) -> (r: Result<VcRegOutput>)
    ensures
        vc_complaint(value(*z)) matches Some(text) ==> r is Err && r->Err_0.says(text),
        vc_complaint(value(*z)) is None ==> (r matches Err(e) ==> e is Backend),
        r matches Ok(o) ==> is_vc_reg(value(*z), o),
        vc_complaint(value(*z)) is None && tensor_location(*z) is Cpu && tensor_element(*z) is F32
            ==> r is Ok,
        r matches Ok(o) ==> tensor_element(*z) is F32 ==> sums_up(value(*z), value(o.std_loss)) && sums_up(
            value(*z),
            value(o.std_t_loss),
        ) && sums_up(value(*z), value(o.cov_loss)) && sums_up(value(*z), value(o.cov_t_loss)),
{
    let (b, t, d) = check_vc(z)?;
    let centred = centre(z, b, t, d)?;
    let turned = swap_first(&centred)?;
    let std = std_loss(&centred)?;
    let std_t = std_loss(&turned)?;
    let cov = cov_loss(&centred)?;
    let cov_t = cov_loss(&turned)?;
    proof {
        assert(is_centred(value(*z), value(centred)));
        assert(permuted(value(centred), first_swapped(), value(turned)));
    }
    Ok(VcRegOutput { std_loss: std, std_t_loss: std_t, cov_loss: cov, cov_t_loss: cov_t })
}

/// What is wrong with embeddings for the latent dynamics loss.
pub open spec fn pldm_complaint(v: TensorValue) -> Option<Seq<char>> {
    if v.dims.len() != 3 {
        Some(rank_complaint(3, v.dims))
    } else if v.dims[1] < 2 {
        Some("PLDM loss requires at least two latent frames"@)
    } else {
        vc_complaint(v)
    }
}

/// The mean squared change from each step to the next.
pub open spec fn is_alignment(z: TensorValue, r: TensorValue) -> bool {
    exists|before: TensorValue, after: TensorValue|
        #[trigger] narrowed(z, 1, 0, z.dims[1] - 1, before) && #[trigger] narrowed(
            z,
            1,
            1,
            z.dims[1] - 1,
            after,
        ) && is_mse(before, after, r)
}

/// The latent dynamics loss of embeddings `[batch, time, width]`. Actions are
/// compared where both the predicted and the true ones are given.
pub fn pldm_loss(z: &Tensor, a_pred: Option<&Tensor>, a_target: Option<&Tensor>) -> (r: Result<
    PldmLossOutput,
>)
    ensures
        pldm_complaint(value(*z)) is Some ==> r is Err,
        r matches Err(SwmError::Message(m)) ==> pldm_complaint(value(*z)) == Some(m@),
        r matches Ok(o) ==> is_alignment(value(*z), value(o.temp_align_loss)) && (exists|
            vc: VcRegOutput,
        |
            #[trigger] is_vc_reg(value(*z), vc) && o.std_loss == vc.std_loss && o.std_t_loss
                == vc.std_t_loss && o.cov_loss == vc.cov_loss && o.cov_t_loss == vc.cov_t_loss),
        r matches Ok(o) ==> match (a_pred, a_target) {
            (Some(p), Some(t)) => o.idm_loss is Some && is_mse(
                value(*p),
                value(*t),
                value(o.idm_loss->0),
            ),
            _ => o.idm_loss is None,
        },
        r matches Ok(o) ==> tensor_dims(o.temp_align_loss).len() == 0,
        pldm_complaint(value(*z)) is None && tensor_location(*z) is Cpu && tensor_element(*z) is F32
            && (a_pred is Some && a_target is Some ==> hosted(value(*a_pred->0)) && matching(
            value(*a_pred->0),
            value(*a_target->0),
        )) ==> r is Ok,
        r matches Ok(o) ==> sums_up(value(*z), value(o.temp_align_loss)),
        r matches Ok(o) ==> tensor_element(*z) is F32 ==> sums_up(value(*z), value(o.std_loss)) && sums_up(
            value(*z),
            value(o.std_t_loss),
        ) && sums_up(value(*z), value(o.cov_loss)) && sums_up(value(*z), value(o.cov_t_loss)),
{
    let (b, time, d) = dims3(z)?;
    if time < 2 {
        return Err(message("PLDM loss requires at least two latent frames"));
    }
    let idm_loss = match (a_pred, a_target) {
        (Some(p), Some(t)) => Some(mse_loss(p, t)?),
        _ => None,
    };
    let before = lift(narrow(z, 1, 0, time - 1))?;
    let after = lift(narrow(z, 1, 1, time - 1))?;
    let temp_align_loss = mse_loss(&before, &after)?;
    let vc = vc_reg(z)?;
    proof {
        assert(narrowed(value(*z), 1, 0, time - 1, value(before)));
        assert(narrowed(value(*z), 1, 1, time - 1, value(after)));
        assert(is_vc_reg(value(*z), vc));
    }
    Ok(
        PldmLossOutput {
            idm_loss,
            temp_align_loss,
            std_loss: vc.std_loss,
            std_t_loss: vc.std_t_loss,
            cov_loss: vc.cov_loss,
            cov_t_loss: vc.cov_t_loss,
        },
    )
}

/// The length of each vector along the last axis, or a small number where it is
/// less.
pub open spec fn is_length(x: TensorValue, r: TensorValue) -> bool {
    exists|squares: TensorValue, total: TensorValue, length: TensorValue|
        #[trigger] square_of(x, squares) && #[trigger] total_of(squares, 2, total)
            && #[trigger] root_of(total, length) && maximum_of(
            length,
            spread(lone(COSINE_EPS, length.location), length.dims),
            r,
        ) && like(length, r)
}

fn length_of(x: &Tensor) -> (r: Result<Tensor>)
    requires
        tensor_dims(*x).len() == 3,
        count(seq![tensor_dims(*x)[0], tensor_dims(*x)[1]]) <= usize::MAX,
    ensures
        r matches Ok(o) ==> is_length(value(*x), value(o)) && value(o) == value(*x).alongside(
            seq![tensor_dims(*x)[0], tensor_dims(*x)[1]],
            tensor_keys(o),
        ),
        r matches Err(e) ==> e is Backend,
        tensor_location(*x) is Cpu && tensor_element(*x) is F32 ==> r is Ok,
{
    let squares = lift(square(x))?;
    let total = lift(sum(&squares, 2))?;
    let length = lift(square_root(&total))?;
    proof {
        let d = tensor_dims(*x);
        assert(tensor_dims(length) =~= seq![d[0], d[1]]);
    }
    let floor = everywhere(COSINE_EPS, &length)?;
    let out = lift(maximum(&length, &floor))?;
    proof {
        assert(square_of(value(*x), value(squares)));
        assert(total_of(value(squares), 2, value(total)));
        assert(root_of(value(total), value(length)));
    }
    Ok(out)
}

/// The cosine of the angle between vectors along the last axis.
pub open spec fn is_cosine(a: TensorValue, b: TensorValue, r: TensorValue) -> bool {
    exists|
        product: TensorValue,
        dot: TensorValue,
        left: TensorValue,
        right: TensorValue,
        area: TensorValue,
    |
        #[trigger] product_of(a, b, product) && #[trigger] total_of(product, 2, dot)
            && #[trigger] is_length(a, left) && #[trigger] is_length(b, right)
            && #[trigger] product_of(left, right, area) && quotient_of(dot, area, r)
}

fn cosine_similarity(a: &Tensor, b: &Tensor) -> (r: Result<Tensor>)
    requires
        tensor_dims(*a).len() == 3,
        tensor_dims(*b) == tensor_dims(*a),
        count(seq![tensor_dims(*a)[0], tensor_dims(*a)[1]]) <= usize::MAX,
    ensures
        r matches Ok(o) ==> is_cosine(value(*a), value(*b), value(o)) && value(o) == value(
            *a,
        ).alongside(seq![tensor_dims(*a)[0], tensor_dims(*a)[1]], tensor_keys(o)),
        r matches Err(e) ==> e is Backend,
        tensor_location(*a) is Cpu && tensor_element(*a) is F32 && matching(value(*a), value(*b))
            ==> r is Ok,
{
    let product = lift(multiply(a, b))?;
    let dot = lift(sum(&product, 2))?;
    let left = length_of(a)?;
    let right = length_of(b)?;
    let area = lift(multiply(&left, &right))?;
    proof {
        let d = tensor_dims(*a);
        assert(tensor_dims(dot) =~= seq![d[0], d[1]]);
    }
    let out = lift(divide(&dot, &area))?;
    proof {
        assert(product_of(value(*a), value(*b), value(product)));
        assert(total_of(value(product), 2, value(dot)));
        assert(is_length(value(*a), value(left)));
        assert(is_length(value(*b), value(right)));
        assert(product_of(value(left), value(right), value(area)));
    }
    Ok(out)
}

/// The change from each step to the next.
pub open spec fn is_velocity(x: TensorValue, r: TensorValue) -> bool {
    exists|before: TensorValue, after: TensorValue|
        #[trigger] narrowed(x, 1, 0, x.dims[1] - 1, before) && #[trigger] narrowed(
            x,
            1,
            1,
            x.dims[1] - 1,
            after,
        ) && difference_of(after, before, r)
}

/// How far a path `[batch, time, width]` is from a straight line: the negated
/// mean cosine between each change and the next.
pub open spec fn is_straightening(x: TensorValue, r: TensorValue) -> bool {
    exists|
        velocity: TensorValue,
        before: TensorValue,
        after: TensorValue,
        cosine: TensorValue,
        mean: TensorValue,
    |
        #[trigger] is_velocity(x, velocity) && #[trigger] narrowed(
            velocity,
            1,
            0,
            x.dims[1] - 2,
            before,
        ) && #[trigger] narrowed(velocity, 1, 1, x.dims[1] - 2, after) && #[trigger] is_cosine(
            before,
            after,
            cosine,
        ) && #[trigger] overall_mean_of(cosine, mean) && is_negation(mean, r)
}

/// What is wrong with the shape of a path.
pub open spec fn straightening_complaint(dims: Seq<usize>) -> Option<Seq<char>> {
    if dims.len() != 3 {
        Some(rank_complaint(3, dims))
    } else if dims[1] < 3 {
        Some("temporal straightening loss requires at least three frames"@)
    } else if count(seq![dims[0], (dims[1] - 2) as usize]) > usize::MAX {
        Some("temporal straightening shape overflowed"@)
    } else {
        None
    }
}

/// How far a path `[batch, time, width]` is from a straight line.
pub fn temporal_straightening_loss(x: &Tensor) -> (r: Result<Tensor>)
    ensures
        straightening_complaint(tensor_dims(*x)) matches Some(text) ==> r is Err && r->Err_0.says(
            text,
        ),
        straightening_complaint(tensor_dims(*x)) is None ==> (r matches Err(e) ==> e is Backend),
        r matches Ok(o) ==> is_straightening(value(*x), value(o)) && tensor_dims(o).len() == 0,
        straightening_complaint(tensor_dims(*x)) is None && tensor_location(*x) is Cpu && tensor_element(*x) is F32
            ==> r is Ok,
        r matches Ok(o) ==> sums_up(value(*x), value(o)),
{
    let (b, time, d) = dims3(x)?;
    if time < 3 {
        return Err(message("temporal straightening loss requires at least three frames"));
    }
    let inside: [usize; 2] = [b, time - 2];
    proof {
        assert(inside@ =~= seq![b, (time - 2) as usize]);
    }
    if element_count(&inside).is_none() {
        return Err(message("temporal straightening shape overflowed"));
    }
    let first = lift(narrow(x, 1, 0, time - 1))?;
    let second = lift(narrow(x, 1, 1, time - 1))?;
    let velocity = lift(subtract(&second, &first))?;
    proof {
        assert(tensor_dims(velocity) =~= seq![b, (time - 1) as usize, d]);
    }
    let before = lift(narrow(&velocity, 1, 0, time - 2))?;
    let after = lift(narrow(&velocity, 1, 1, time - 2))?;
    proof {
        assert(tensor_dims(before) =~= seq![b, (time - 2) as usize, d]);
        assert(tensor_dims(after) =~= tensor_dims(before));
    }
    let cosine = cosine_similarity(&before, &after)?;
    let average = lift(mean_all(&cosine))?;
    let out = lift(negate(&average))?;
    proof {
        assert(narrowed(value(*x), 1, 0, time - 1, value(first)));
        assert(narrowed(value(*x), 1, 1, time - 1, value(second)));
        assert(is_velocity(value(*x), value(velocity)));
        assert(narrowed(value(velocity), 1, 0, time - 2, value(before)));
        assert(narrowed(value(velocity), 1, 1, time - 2, value(after)));
        assert(is_cosine(value(before), value(after), value(cosine)));
        assert(overall_mean_of(value(cosine), value(average)));
    }
    Ok(out)
}

} // verus!
