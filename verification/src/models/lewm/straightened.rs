//! What the losses on the shape of a path are made of.

use vstd::arithmetic::div_mod::lemma_fundamental_div_mod_converse;
use vstd::prelude::*;

use crate::models::lewm::embedder::swapped;
use crate::models::lewm::hinged::lemma_spread_one;
use crate::models::lewm::loss::{
    diagonals, first_swapped, is_cosine, is_covariance, is_length, is_matrix_total, is_off_diagonal,
    is_straightening, is_velocity, lone, COSINE_EPS,
};
use crate::rounding::{
    finite, lemma_exact, lemma_keeps_its_side, lemma_one, lemma_scale, lemma_units, one, roots_to,
    rounds_to, scale, units,
};
use crate::scalar::{f32_key, F64};
use crate::tensor::arithmetic::{
    affine_of, affine_rounds, difference_of, exact, finite_at, is_matrix_product, is_negation,
    is_number, like, maximum_of, multiplied, nearest_at, overall_mean_of, product_of, quotient_of,
    quotient_rounds, root_of, root_rounds, shared, square_of, square_rounds, total_of, units_at,
};
use crate::tensor::facts::{lemma_counts, lemma_position, lemma_second_axis, lemma_spread_first};
use crate::tensor::layout::{narrowed, permuted};
use crate::tensor::make::double;
use crate::tensor::scaled::{differ_by, lemma_difference_at, lemma_product_at};
use crate::tensor::share::{a_share_times_its_number_is_one, is_share};
use crate::tensor::value::{count, is_double, position, spread, ElementType, TensorValue};

verus! {

/// What a length is made of.
pub struct Length {
    pub squares: TensorValue,
    pub total: TensorValue,
    pub root: TensorValue,
}

/// The root of a sum at a place, or the least length where that is larger.
pub open spec fn is_length_at(total: TensorValue, root: TensorValue, r: TensorValue, k: int) -> bool {
    &&& roots_to(
        ElementType::F32,
        units_at(total, k) * scale(ElementType::F32),
        root.keys[k],
    )
    &&& r.keys[k] == if root.keys[k] >= f32_key(COSINE_EPS) {
        root.keys[k]
    } else {
        f32_key(COSINE_EPS)
    }
}

/// A length is the root of the sum of the squares of the components, and not below the
/// least length.
pub proof fn lengths_are_roots_of_sums_of_squares(x: TensorValue, r: TensorValue) -> (s: Length)
    requires
        is_length(x, r),
        exact(x),
        x.element is F32,
        x.dims.len() == 3,
    ensures
        total_of(s.squares, 2, s.total),
        forall|k: int|
            0 <= k < x.keys.len() && finite_at(x, k) ==> rounds_to(
                ElementType::F32,
                units_at(x, k) * units_at(x, k),
                scale(ElementType::F32),
                #[trigger] s.squares.keys[k],
            ),
        forall|k: int|
            0 <= k < r.keys.len() && finite_at(s.total, k) && s.total.keys[k] >= 0
                ==> #[trigger] is_length_at(s.total, s.root, r, k),
{
    let (squares, total, length) = choose|
        squares: TensorValue,
        total: TensorValue,
        length: TensorValue,
    |
        #[trigger] square_of(x, squares) && #[trigger] total_of(squares, 2, total)
            && #[trigger] root_of(total, length) && maximum_of(
            length,
            spread(lone(COSINE_EPS, length.location), length.dims),
            r,
        ) && like(length, r);
    let e = ElementType::F32;
    assert forall|k: int| 0 <= k < x.keys.len() && finite_at(x, k) implies rounds_to(
        e,
        units_at(x, k) * units_at(x, k),
        scale(e),
        #[trigger] squares.keys[k],
    ) by {
        reveal(square_rounds);
        assert(nearest_at(squares, k, units_at(x, k) * units_at(x, k), scale(e)));
    }
    let floor = spread(lone(COSINE_EPS, length.location), length.dims);
    assert(total.dims.len() == 2 && exact(total) && total.element == e);
    assert forall|k: int|
        0 <= k < r.keys.len() && finite_at(total, k) && total.keys[k]
            >= 0 implies #[trigger] is_length_at(total, length, r, k) by {
        reveal(root_rounds);
        lemma_spread_one(length.dims, k);
        assert(roots_to(e, units_at(total, k) * scale(e), length.keys[k]));
        assert(floor.keys[k] == f32_key(COSINE_EPS));
        assert(r.keys[k] == if length.keys[k] >= floor.keys[k] {
            length.keys[k]
        } else {
            floor.keys[k]
        });
    }
    Length { squares, total, root: length }
}

/// Whether `r` is a dot product over the product of two lengths.
pub open spec fn cosine_at(e: ElementType, dot: int, left: int, right: int, area: int, r: int) -> bool {
    &&& finite(e, left) && finite(e, right) ==> rounds_to(
        e,
        units(e, left) * units(e, right),
        scale(e),
        area,
    )
    &&& finite(e, dot) && finite(e, area) && area > 0 ==> rounds_to(
        e,
        units(e, dot) * scale(e),
        units(e, area),
        r,
    )
}

/// What a cosine is made of.
pub struct Angle {
    pub products: TensorValue,
    pub dot: TensorValue,
    pub left: TensorValue,
    pub right: TensorValue,
    pub area: TensorValue,
}

/// The cosine between two changes is the sum of the products of their components over
/// the product of their lengths.
pub proof fn cosines_divide_by_lengths(a: TensorValue, b: TensorValue, r: TensorValue) -> (c: Angle)
    requires
        is_cosine(a, b, r),
        exact(a),
    ensures
        total_of(c.products, 2, c.dot),
        is_length(a, c.left),
        is_length(b, c.right),
        forall|k: int|
            0 <= k < a.keys.len() && finite_at(a, k) && finite_at(b, k) ==> rounds_to(
                a.element,
                units_at(a, k) * units_at(b, k),
                scale(a.element),
                #[trigger] c.products.keys[k],
            ),
        forall|k: int|
            0 <= k < r.keys.len() ==> cosine_at(
                a.element,
                c.dot.keys[k],
                c.left.keys[k],
                c.right.keys[k],
                c.area.keys[k],
                #[trigger] r.keys[k],
            ),
{
    let (product, dot, left, right, area) = choose|
        product: TensorValue,
        dot: TensorValue,
        left: TensorValue,
        right: TensorValue,
        area: TensorValue,
    |
        #[trigger] product_of(a, b, product) && #[trigger] total_of(product, 2, dot)
            && #[trigger] is_length(a, left) && #[trigger] is_length(b, right)
            && #[trigger] product_of(left, right, area) && quotient_of(dot, area, r);
    let e = a.element;
    assert forall|k: int| 0 <= k < a.keys.len() && finite_at(a, k) && finite_at(b, k) implies rounds_to(
        e,
        units_at(a, k) * units_at(b, k),
        scale(e),
        #[trigger] product.keys[k],
    ) by {
        lemma_product_at(a, b, product, k);
    }
    assert(exact(dot) && dot.element == e);
    assert forall|k: int| 0 <= k < r.keys.len() implies cosine_at(
        e,
        dot.keys[k],
        left.keys[k],
        right.keys[k],
        area.keys[k],
        #[trigger] r.keys[k],
    ) by {
        assert(area.element == e && exact(area));
        assert(left.element == e && exact(left));
        if finite(e, left.keys[k]) && finite(e, right.keys[k]) {
            assert(finite_at(left, k) && finite_at(right, k));
            lemma_product_at(left, right, area, k);
        }
        if finite(e, dot.keys[k]) && finite(e, area.keys[k]) && area.keys[k] > 0 {
            assert(finite_at(dot, k) && finite_at(area, k));
            reveal(quotient_rounds);
            assert(nearest_at(r, k, units_at(dot, k) * scale(e), units_at(area, k)));
        }
    }
    Angle { products: product, dot, left, right, area }
}

/// What a path was measured by.
pub struct Bend {
    pub velocity: TensorValue,
    pub before: TensorValue,
    pub after: TensorValue,
    pub cosines: TensorValue,
    pub mean: TensorValue,
}

/// The straightening loss is the negated mean of the cosines between each change of a
/// path and the next: the straighter the path, the lower the loss. A change is how far
/// a step lies above the one before.
pub proof fn straighter_paths_lose_less(x: TensorValue, r: TensorValue) -> (s: Bend)
    requires
        is_straightening(x, r),
        exact(x),
        x.dims.len() == 3,
        x.dims[1] >= 3,
        x.keys.len() == count(x.dims),
        forall|k: int| 0 <= k < x.keys.len() ==> finite(x.element, #[trigger] x.keys[k]),
    ensures
        is_cosine(s.before, s.after, s.cosines),
        overall_mean_of(s.cosines, s.mean),
        is_number(s.mean, 0) ==> r.keys[0] == -s.mean.keys[0],
        forall|o: int, m: int, i: int|
            0 <= o < x.dims[0] && 0 <= m < x.dims[1] - 1 && 0 <= i < x.dims[2] ==> differ_by(
                x.element,
                x.at(1, o, m + 1, i),
                x.at(1, o, m, i),
                #[trigger] s.velocity.at(1, o, m, i),
            ),
        forall|o: int, m: int, i: int|
            #![trigger s.before.at(1, o, m, i)]
            #![trigger s.after.at(1, o, m, i)]
            0 <= o < x.dims[0] && 0 <= m < x.dims[1] - 2 && 0 <= i < x.dims[2] ==> s.before.at(
                1,
                o,
                m,
                i,
            ) == s.velocity.at(1, o, m, i) && s.after.at(1, o, m, i) == s.velocity.at(
                1,
                o,
                m + 1,
                i,
            ),
{
    let (velocity, before, after, cosine, mean) = choose|
        velocity: TensorValue,
        before: TensorValue,
        after: TensorValue,
        cosine: TensorValue,
        mean: TensorValue,
    |
        #[trigger] is_velocity(x, velocity) && #[trigger] narrowed(
            velocity,
            1,
            0,
            x.dims[1] - 2,
            before,
        ) && #[trigger] narrowed(velocity, 1, 1, x.dims[1] - 2, after) && #[trigger] is_cosine(
            before,
            after,
            cosine,
        ) && #[trigger] overall_mean_of(cosine, mean) && is_negation(mean, r);
    let (first, second) = choose|before: TensorValue, after: TensorValue|
        #[trigger] narrowed(x, 1, 0, x.dims[1] - 1, before) && #[trigger] narrowed(
            x,
            1,
            1,
            x.dims[1] - 1,
            after,
        ) && difference_of(after, before, velocity);
    let (n, t, d) = (x.dims[0], x.dims[1], x.dims[2]);
    let (u, v) = ((t - 1) as usize, (t - 2) as usize);
    assert(x.dims =~= seq![n, t, d]);
    assert(first.dims =~= seq![n, u, d]);
    assert(second.dims =~= seq![n, u, d]);
    assert(before.dims =~= seq![n, v, d]);
    assert(after.dims =~= seq![n, v, d]);
    lemma_second_axis(n, t, d, d);
    lemma_second_axis(n, u, d, d);
    lemma_second_axis(n, v, d, d);
    assert forall|o: int, m: int, i: int|
        0 <= o < n && 0 <= m < t - 1 && 0 <= i < d implies differ_by(
        x.element,
        x.at(1, o, m + 1, i),
        x.at(1, o, m, i),
        #[trigger] velocity.at(1, o, m, i),
    ) by {
        let k = position(first.dims, 1, o, m, i);
        lemma_position(first.dims, 1, o, m, i);
        lemma_position(x.dims, 1, o, m, i);
        lemma_position(x.dims, 1, o, m + 1, i);
        assert(first.at(1, o, m, i) == x.at(1, o, 0 + m, i));
        assert(second.at(1, o, m, i) == x.at(1, o, 1 + m, i));
        assert(finite_at(first, k) && finite_at(second, k));
        lemma_difference_at(second, first, velocity, k);
    }
    assert forall|o: int, m: int, i: int|
        #![trigger before.at(1, o, m, i)]
        #![trigger after.at(1, o, m, i)]
        0 <= o < n && 0 <= m < t - 2 && 0 <= i < d implies before.at(1, o, m, i) == velocity.at(
        1,
        o,
        m,
        i,
    ) && after.at(1, o, m, i) == velocity.at(1, o, m + 1, i) by {
        assert(before.at(1, o, m, i) == velocity.at(1, o, 0 + m, i));
        assert(after.at(1, o, m, i) == velocity.at(1, o, 1 + m, i));
    }
    Bend { velocity, before, after, cosines: cosine, mean }
}

/// A covariance is a product of centred embeddings divided by one less than their
/// number.
pub proof fn covariances_divide_by_one_less(z: TensorValue, r: TensorValue) -> (product: TensorValue)
    requires
        is_covariance(z, r),
        exact(r),
        1 < z.dims[0] < 0x20_0000_0000_0000,
    ensures
        exists|turned: TensorValue, flipped: TensorValue|
            #[trigger] permuted(z, first_swapped(), turned) && #[trigger] permuted(
                turned,
                swapped(),
                flipped,
            ) && is_matrix_product(flipped, turned, product),
        forall|k: int|
            0 <= k < r.keys.len() && finite_at(product, k) ==> shared(
                r.element,
                product.keys[k],
                z.dims[0] - 1,
                #[trigger] r.keys[k],
            ),
{
    let (turned, flipped, product, share) = choose|
        turned: TensorValue,
        flipped: TensorValue,
        product: TensorValue,
        share: TensorValue,
    |
        #[trigger] permuted(z, first_swapped(), turned) && #[trigger] permuted(
            turned,
            swapped(),
            flipped,
        ) && #[trigger] is_matrix_product(flipped, turned, product) && #[trigger] is_share(
            (z.dims[0] - 1) as u64,
            share,
        ) && affine_of(product, share, double(F64 { bits: 0 }), r);
    let (d, n) = (ElementType::F64, z.dims[0] - 1);
    let zero = double(F64 { bits: 0 });
    a_share_times_its_number_is_one(n as u64, share);
    lemma_one(d);
    lemma_scale(d);
    assert(scale(d) <= scale(d) * n) by (nonlinear_arith)
        requires
            scale(d) > 0,
            n >= 1,
    ;
    lemma_keeps_its_side(d, scale(d), n, share.keys[0], one(d));
    assert(finite_at(share, 0));
    assert(zero.keys[0] == 0 && finite_at(zero, 0) && is_double(zero));
    assert forall|k: int| 0 <= k < r.keys.len() && finite_at(product, k) implies shared(
        r.element,
        product.keys[k],
        n,
        #[trigger] r.keys[k],
    ) by {
        assert(exact(product));
        assert(multiplied(r.element, product.keys[k], share.keys[0], zero.keys[0], r.keys[k])) by {
            reveal(affine_rounds);
        }
    }
    product
}

/// What squared covariances come to.
pub struct OffDiagonal {
    pub total: TensorValue,
    pub kept: TensorValue,
    pub diagonal: TensorValue,
}

/// What counts of squared covariances `[steps, width, width]` is the sum of all of them
/// less the sum of those on the diagonal.
pub proof fn diagonals_do_not_count(squares: TensorValue, r: TensorValue) -> (p: OffDiagonal)
    requires
        is_off_diagonal(squares, r),
        exact(squares),
        squares.dims.len() == 3,
        squares.dims[1] == squares.dims[2],
        squares.keys.len() == count(squares.dims),
        forall|k: int|
            0 <= k < squares.keys.len() ==> finite(squares.element, #[trigger] squares.keys[k]),
    ensures
        is_matrix_total(squares, p.total),
        is_matrix_total(p.kept, p.diagonal),
        forall|o: int, i: int, j: int|
            #![trigger on_diagonal(squares, o, i, j, p.kept)]
            0 <= o < squares.dims[0] && 0 <= i < squares.dims[1] && 0 <= j < squares.dims[1]
                ==> on_diagonal(squares, o, i, j, p.kept),
        forall|k: int|
            0 <= k < r.keys.len() && finite_at(p.total, k) && finite_at(p.diagonal, k) ==> differ_by(
                squares.element,
                p.total.keys[k],
                p.diagonal.keys[k],
                #[trigger] r.keys[k],
            ),
{
    let (total, kept, diagonal) = choose|
        total: TensorValue,
        kept: TensorValue,
        diagonal: TensorValue,
    |
        #[trigger] is_matrix_total(squares, total) && #[trigger] product_of(
            squares,
            diagonals(squares),
            kept,
        ) && #[trigger] is_matrix_total(kept, diagonal) && difference_of(total, diagonal, r);
    let e = squares.element;
    let (t, d) = (squares.dims[0], squares.dims[1]);
    assert(squares.dims =~= seq![t, d, d]);
    assert(exact(total) && total.element == e);
    assert forall|k: int|
        0 <= k < r.keys.len() && finite_at(total, k) && finite_at(diagonal, k) implies differ_by(
        e,
        total.keys[k],
        diagonal.keys[k],
        #[trigger] r.keys[k],
    ) by {
        lemma_difference_at(total, diagonal, r, k);
    }
    let mask = diagonals(squares);
    assert forall|o: int, i: int, j: int|
        #![trigger on_diagonal(squares, o, i, j, kept)]
        0 <= o < t && 0 <= i < d && 0 <= j < d implies on_diagonal(squares, o, i, j, kept) by {
        let n = d as int;
        let q = i * n + j;
        let k = (o * n + i) * n + j;
        assert(k == o * (n * n) + q && 0 <= q < n * n && q == n * i + j) by (nonlinear_arith)
            requires
                k == (o * n + i) * n + j,
                q == i * n + j,
                0 <= i < n,
                0 <= j < n,
        ;
        lemma_counts(d, d, d, d);
        lemma_spread_first(t, seq![d, d], o, q);
        assert(seq![1usize] + seq![d, d] =~= seq![1usize, d, d]);
        assert(seq![t] + seq![d, d] =~= seq![t, d, d]);
        lemma_fundamental_div_mod_converse(q, n, i, j);
        assert(mask.keys[k] == if i == j {
            one(e)
        } else {
            0
        });
        assert(finite_at(squares, k) && finite_at(mask, k));
        lemma_product_at(squares, mask, kept, k);
        lemma_one(e);
        lemma_scale(e);
        lemma_units(e, 0, 0);
        let u = units(e, squares.keys[k]);
        if i == j {
            lemma_exact(e, squares.keys[k], scale(e), kept.keys[k]);
        } else {
            assert(u * 0 == units(e, 0) * scale(e)) by (nonlinear_arith)
                requires
                    units(e, 0) == 0,
            ;
            lemma_exact(e, 0, scale(e), kept.keys[k]);
        }
    }
    OffDiagonal { total, kept, diagonal }
}

/// Whether an element of matrices is kept on the diagonal and dropped beside it.
pub open spec fn on_diagonal(
    squares: TensorValue,
    o: int,
    i: int,
    j: int,
    kept: TensorValue,
) -> bool {
    let k = (o * squares.dims[1] + i) * squares.dims[1] + j;
    kept.keys[k] == if i == j {
        squares.keys[k]
    } else {
        0
    }
}

} // verus!
