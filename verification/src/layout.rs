//! Addresses in a four-dimensional tensor whose axes may be stored in any
//! order.
//!
//! A format is four bytes, one each of `N`, `H`, `W` and `C`; the position of
//! a letter is the physical axis that the coordinate of that name runs along.
//! The tensor itself is stored row-major in the physical order, so one step
//! along axis 3 moves by one element and one step along axis 0 moves by
//! `dims[1] * dims[2] * dims[3]` elements.
use crate::find::{first_index, lemma_first_index};
use vstd::prelude::*;
use vstd::string::StringSliceAdditionalSpecFns;

verus! {

/// The byte `N`: the batch axis.
pub const AXIS_N: u8 = 78;

/// The byte `H`: the height axis.
pub const AXIS_H: u8 = 72;

/// The byte `W`: the width axis.
pub const AXIS_W: u8 = 87;

/// The byte `C`: the channel axis.
pub const AXIS_C: u8 = 67;

/// The sizes of the four named axes and the physical position of each.
#[derive(Debug, Clone, Copy)]
pub struct NamedDims {
    pub n: i64,
    pub h: i64,
    pub w: i64,
    pub c: i64,
    pub ni: usize,
    pub hi: usize,
    pub wi: usize,
    pub ci: usize,
}

/// A format: four bytes among which each of the four axis letters occurs.
pub open spec fn is_format(format: Seq<u8>) -> bool {
    &&& format.len() == 4
    &&& format.contains(AXIS_N)
    &&& format.contains(AXIS_H)
    &&& format.contains(AXIS_W)
    &&& format.contains(AXIS_C)
}

/// A shape: four extents, none of them negative.
pub open spec fn is_shape(dims: Seq<i64>) -> bool {
    &&& dims.len() == 4
    &&& forall|i: int| 0 <= i < 4 ==> 0 <= #[trigger] dims[i]
}

/// A shape without an empty axis.
pub open spec fn is_positive_shape(dims: Seq<i64>) -> bool {
    &&& dims.len() == 4
    &&& forall|i: int| 0 <= i < 4 ==> 0 < #[trigger] dims[i]
}

/// The number of elements between two neighbours along the physical axis
/// `axis`.
pub open spec fn stride(dims: Seq<i64>, axis: int) -> int {
    if axis == 3 {
        1
    } else if axis == 2 {
        dims[3] as int
    } else if axis == 1 {
        dims[2] * dims[3]
    } else {
        dims[1] * dims[2] * dims[3]
    }
}

/// The number of elements of a tensor of the given shape.
pub open spec fn element_count(dims: Seq<i64>) -> int {
    dims[0] * dims[1] * dims[2] * dims[3]
}

/// The linear offset of the element at the logical coordinate
/// `(n, h, w, c)`: each coordinate times the stride of the axis that its
/// letter stands at.
pub open spec fn offset_of(dims: Seq<i64>, format: Seq<u8>, n: int, h: int, w: int, c: int) -> int {
    n * stride(dims, first_index(format, AXIS_N)) + h * stride(dims, first_index(format, AXIS_H))
        + w * stride(dims, first_index(format, AXIS_W)) + c * stride(
        dims,
        first_index(format, AXIS_C),
    )
}

/// The size of each named axis of a tensor with the given shape and axis
/// order, and the physical position of each.
pub open spec fn named_dims(dims: Seq<i64>, format: Seq<u8>) -> NamedDims {
    NamedDims {
        n: dims[first_index(format, AXIS_N)],
        h: dims[first_index(format, AXIS_H)],
        w: dims[first_index(format, AXIS_W)],
        c: dims[first_index(format, AXIS_C)],
        ni: first_index(format, AXIS_N) as usize,
        hi: first_index(format, AXIS_H) as usize,
        wi: first_index(format, AXIS_W) as usize,
        ci: first_index(format, AXIS_C) as usize,
    }
}

/// Whether each coordinate lies below the extent of its axis.
pub open spec fn in_extent(dims: Seq<i64>, format: Seq<u8>, n: int, h: int, w: int, c: int) -> bool {
    &&& 0 <= n < dims[first_index(format, AXIS_N)]
    &&& 0 <= h < dims[first_index(format, AXIS_H)]
    &&& 0 <= w < dims[first_index(format, AXIS_W)]
    &&& 0 <= c < dims[first_index(format, AXIS_C)]
}

/// The coordinate that runs along the physical axis `axis`.
pub open spec fn coordinate_at(format: Seq<u8>, axis: int, n: int, h: int, w: int, c: int) -> int {
    if first_index(format, AXIS_N) == axis {
        n
    } else if first_index(format, AXIS_H) == axis {
        h
    } else if first_index(format, AXIS_W) == axis {
        w
    } else {
        c
    }
}

/// The position along the physical axis `axis` of the element stored at
/// `offset`.
pub open spec fn position_of(dims: Seq<i64>, offset: int, axis: int) -> int {
    (offset / stride(dims, axis)) % (dims[axis] as int)
}

/// The logical coordinate `(n, h, w, c)` of the element stored at `offset`.
pub open spec fn coordinates_of(dims: Seq<i64>, format: Seq<u8>, offset: int) -> (int, int, int, int) {
    (
        position_of(dims, offset, first_index(format, AXIS_N)),
        position_of(dims, offset, first_index(format, AXIS_H)),
        position_of(dims, offset, first_index(format, AXIS_W)),
        position_of(dims, offset, first_index(format, AXIS_C)),
    )
}

/// In a format the four letters stand at four different axes, so their
/// positions are the numbers 0 to 3 in some order.
pub proof fn lemma_format_is_permutation(format: Seq<u8>)
    requires
        is_format(format),
    ensures
        0 <= first_index(format, AXIS_N) < 4,
        0 <= first_index(format, AXIS_H) < 4,
        0 <= first_index(format, AXIS_W) < 4,
        0 <= first_index(format, AXIS_C) < 4,
        first_index(format, AXIS_N) != first_index(format, AXIS_H),
        first_index(format, AXIS_N) != first_index(format, AXIS_W),
        first_index(format, AXIS_N) != first_index(format, AXIS_C),
        first_index(format, AXIS_H) != first_index(format, AXIS_W),
        first_index(format, AXIS_H) != first_index(format, AXIS_C),
        first_index(format, AXIS_W) != first_index(format, AXIS_C),
{
    lemma_first_index(format, AXIS_N);
    lemma_first_index(format, AXIS_H);
    lemma_first_index(format, AXIS_W);
    lemma_first_index(format, AXIS_C);
}

/// Finds the first `letter` among the bytes.
pub fn find_letter(bytes: &[u8], letter: u8) -> (found: Option<usize>)
    ensures
        found is Some <==> bytes@.contains(letter),
        found is Some ==> found->0 == first_index(bytes@, letter),
{
    proof {
        lemma_first_index(bytes@, letter);
    }
    let mut i: usize = 0;
    while i < bytes.len()
        invariant
            0 <= i <= bytes@.len(),
            forall|j: int| 0 <= j < i ==> bytes@[j] != letter,
            0 <= first_index(bytes@, letter) <= bytes@.len(),
            first_index(bytes@, letter) < bytes@.len() <==> bytes@.contains(letter),
            first_index(bytes@, letter) < bytes@.len() ==> bytes@[first_index(bytes@, letter)]
                == letter,
            forall|j: int| 0 <= j < first_index(bytes@, letter) ==> bytes@[j] != letter,
        decreases bytes@.len() - i,
    {
        if bytes[i] == letter {
            return Some(i);
        }
        i += 1;
    }
    None
}

/// Whether the text is a format: four bytes that hold each axis letter.
pub fn is_valid_format(format: &str) -> (valid: bool)
    ensures
        valid == is_format(format.spec_bytes()),
{
    let bytes = format.as_bytes();
    bytes.len() == 4 && find_letter(bytes, AXIS_N).is_some() && find_letter(bytes, AXIS_H).is_some()
        && find_letter(bytes, AXIS_W).is_some() && find_letter(bytes, AXIS_C).is_some()
}

/// The physical axis of each of `N`, `H`, `W` and `C`, in that order.
pub fn get_format_indices(format: &str) -> (indices: (usize, usize, usize, usize))
    requires
        format.spec_bytes().contains(AXIS_N),
        format.spec_bytes().contains(AXIS_H),
        format.spec_bytes().contains(AXIS_W),
        format.spec_bytes().contains(AXIS_C),
    ensures
        indices.0 == first_index(format.spec_bytes(), AXIS_N),
        indices.1 == first_index(format.spec_bytes(), AXIS_H),
        indices.2 == first_index(format.spec_bytes(), AXIS_W),
        indices.3 == first_index(format.spec_bytes(), AXIS_C),
{
    let bytes = format.as_bytes();
    let ni = find_letter(bytes, AXIS_N);
    let hi = find_letter(bytes, AXIS_H);
    let wi = find_letter(bytes, AXIS_W);
    let ci = find_letter(bytes, AXIS_C);
    (ni.unwrap(), hi.unwrap(), wi.unwrap(), ci.unwrap())
}

/// No stride of a shape is negative.
pub proof fn lemma_stride_nonnegative(dims: Seq<i64>, axis: int)
    requires
        is_shape(dims),
    ensures
        0 <= stride(dims, axis),
{
    let d1 = dims[1] as int;
    let d2 = dims[2] as int;
    let d3 = dims[3] as int;
    assert(0 <= d2 * d3 && 0 <= d1 * d2 * d3) by (nonlinear_arith)
        requires
            0 <= d1,
            0 <= d2,
            0 <= d3,
    ;
}

/// The size of each named axis and its physical position.
pub fn dims_named(dims: &[i64], format: &str) -> (named: NamedDims)
    requires
        dims@.len() == 4,
        is_format(format.spec_bytes()),
    ensures
        named == named_dims(dims@, format.spec_bytes()),
{
    proof {
        lemma_format_is_permutation(format.spec_bytes());
    }
    let (ni, hi, wi, ci) = get_format_indices(format);
    NamedDims { n: dims[ni], h: dims[hi], w: dims[wi], c: dims[ci], ni, hi, wi, ci }
}

/// What the coordinate `a` along the physical axis `index` adds to the
/// offset: `a` times the stride of that axis.
pub fn axis_offset(a: usize, index: usize, dims: &[i64]) -> (offset: usize)
    requires
        is_shape(dims@),
        index <= 3,
        a * stride(dims@, index as int) <= usize::MAX,
    ensures
        offset == a * stride(dims@, index as int),
{
    if a == 0 {
        assert(a * stride(dims@, index as int) == 0) by (nonlinear_arith)
            requires
                a == 0,
        ;
        return 0;
    }
    let d1: i64 = dims[1];
    let d2: i64 = dims[2];
    let d3: i64 = dims[3];
    proof {
        lemma_stride_nonnegative(dims@, index as int);
        let s = stride(dims@, index as int);
        assert(s <= a * s) by (nonlinear_arith)
            requires
                1 <= a,
                0 <= s,
        ;
    }
    if index == 3 {
        assert(a * 1 == a);
        a
    } else if index == 2 {
        a * (d3 as usize)
    } else if index == 1 {
        assert(d2 * d3 <= 0x7fff_ffff_ffff_ffff * 0x7fff_ffff_ffff_ffff) by (nonlinear_arith)
            requires
                0 <= d2 <= 0x7fff_ffff_ffff_ffff,
                0 <= d3 <= 0x7fff_ffff_ffff_ffff,
        ;
        let s: u128 = (d2 as u128) * (d3 as u128);
        a * (s as usize)
    } else if d3 == 0 {
        assert(a * (d1 * d2 * d3) == 0) by (nonlinear_arith)
            requires
                d3 == 0,
        ;
        0
    } else {
        assert(0 <= d1 * d2 <= d1 * d2 * d3) by (nonlinear_arith)
            requires
                0 <= d1,
                0 <= d2,
                1 <= d3,
        ;
        assert(d1 * d2 <= 0x7fff_ffff_ffff_ffff * 0x7fff_ffff_ffff_ffff) by (nonlinear_arith)
            requires
                0 <= d1 <= 0x7fff_ffff_ffff_ffff,
                0 <= d2 <= 0x7fff_ffff_ffff_ffff,
        ;
        let p: u128 = (d1 as u128) * (d2 as u128);
        let s: u128 = p * (d3 as u128);
        a * (s as usize)
    }
}

/// The linear offset of the element at the logical coordinate
/// `(n, h, w, c)` of a tensor with the given shape and axis order. A
/// coordinate within the extents has its offset within the tensor.
pub fn offset_from_tensor_coordinates(
    dims: &[i64],
    format: &str,
    n: usize,
    h: usize,
    w: usize,
    c: usize,
) -> (offset: usize)
    requires
        is_shape(dims@),
        is_format(format.spec_bytes()),
        offset_of(dims@, format.spec_bytes(), n as int, h as int, w as int, c as int)
            <= usize::MAX,
    ensures
        offset == offset_of(dims@, format.spec_bytes(), n as int, h as int, w as int, c as int),
        in_extent(dims@, format.spec_bytes(), n as int, h as int, w as int, c as int) ==> offset
            < element_count(dims@),
{
    proof {
        let f = format.spec_bytes();
        if in_extent(dims@, f, n as int, h as int, w as int, c as int) {
            lemma_offset_in_range(dims@, f, n as int, h as int, w as int, c as int);
        }
        lemma_format_is_permutation(f);
        lemma_stride_nonnegative(dims@, first_index(f, AXIS_N));
        lemma_stride_nonnegative(dims@, first_index(f, AXIS_H));
        lemma_stride_nonnegative(dims@, first_index(f, AXIS_W));
        lemma_stride_nonnegative(dims@, first_index(f, AXIS_C));
        lemma_product_nonnegative(n as int, stride(dims@, first_index(f, AXIS_N)));
        lemma_product_nonnegative(h as int, stride(dims@, first_index(f, AXIS_H)));
        lemma_product_nonnegative(w as int, stride(dims@, first_index(f, AXIS_W)));
        lemma_product_nonnegative(c as int, stride(dims@, first_index(f, AXIS_C)));
    }
    let (ni, hi, wi, ci) = get_format_indices(format);
    axis_offset(n, ni, dims) + axis_offset(h, hi, dims) + axis_offset(w, wi, dims) + axis_offset(
        c,
        ci,
        dims,
    )
}

/// Whether there are four extents, all above zero, that multiply to
/// `count`.
pub fn has_element_count(dims: &[i64], count: i64) -> (matches: bool)
    ensures
        matches == (is_positive_shape(dims@) && element_count(dims@) == count),
{
    if dims.len() != 4 {
        return false;
    }
    let d0: i64 = dims[0];
    let d1: i64 = dims[1];
    let d2: i64 = dims[2];
    let d3: i64 = dims[3];
    if d0 <= 0 || d1 <= 0 || d2 <= 0 || d3 <= 0 {
        return false;
    }
    assert(d0 * d1 <= d0 * d1 * d2 <= d0 * d1 * d2 * d3) by (nonlinear_arith)
        requires
            1 <= d0,
            1 <= d1,
            1 <= d2,
            1 <= d3,
    ;
    match d0.checked_mul(d1) {
        None => false,
        Some(p) => match p.checked_mul(d2) {
            None => false,
            Some(q) => match q.checked_mul(d3) {
                None => false,
                Some(r) => r == count,
            },
        },
    }
}

proof fn lemma_product_nonnegative(a: int, b: int)
    by (nonlinear_arith)
    requires
        0 <= a,
        0 <= b,
    ensures
        0 <= a * b,
{
}

/// The offset written with one nested product per axis.
spec fn nested(u0: int, u1: int, u2: int, u3: int, d1: int, d2: int, d3: int) -> int {
    ((u0 * d1 + u1) * d2 + u2) * d3 + u3
}

proof fn lemma_expand(a: int, b: int, c: int, d: int)
    by (nonlinear_arith)
    ensures
        (a * b + c) * d == a * (b * d) + c * d,
{
}

proof fn lemma_nested(u0: int, u1: int, u2: int, u3: int, d1: int, d2: int, d3: int)
    ensures
        u0 * (d1 * d2 * d3) + u1 * (d2 * d3) + u2 * d3 + u3 * 1 == nested(
            u0,
            u1,
            u2,
            u3,
            d1,
            d2,
            d3,
        ),
{
    lemma_expand(u0, d1, u1, d2);
    lemma_expand(u0, d1 * d2, u1 * d2 + u2, d3);
    lemma_expand(u1, d2, u2, d3);
}

proof fn lemma_digit_bound(q: int, p: int, m: int, d: int)
    by (nonlinear_arith)
    requires
        0 <= q < m,
        0 <= p < d,
    ensures
        0 <= q * d + p < m * d,
{
}

proof fn lemma_digit_unique(a: int, r: int, b: int, s: int, d: int)
    by (nonlinear_arith)
    requires
        0 <= r < d,
        0 <= s < d,
        a * d + r == b * d + s,
    ensures
        a == b,
        r == s,
{
}

/// The offset is the sum, over the physical axes, of the coordinate along
/// the axis times its stride.
proof fn lemma_offset_by_axis(dims: Seq<i64>, format: Seq<u8>, n: int, h: int, w: int, c: int)
    requires
        is_format(format),
    ensures
        offset_of(dims, format, n, h, w, c) == coordinate_at(format, 0, n, h, w, c) * stride(
            dims,
            0,
        ) + coordinate_at(format, 1, n, h, w, c) * stride(dims, 1) + coordinate_at(
            format,
            2,
            n,
            h,
            w,
            c,
        ) * stride(dims, 2) + coordinate_at(format, 3, n, h, w, c) * stride(dims, 3),
        in_extent(dims, format, n, h, w, c) <==> (forall|axis: int|
            0 <= axis < 4 ==> 0 <= #[trigger] coordinate_at(format, axis, n, h, w, c)
                < dims[axis]),
{
    lemma_format_is_permutation(format);
    let ni = first_index(format, AXIS_N);
    let hi = first_index(format, AXIS_H);
    let wi = first_index(format, AXIS_W);
    let ci = first_index(format, AXIS_C);
    if in_extent(dims, format, n, h, w, c) {
        assert forall|axis: int| 0 <= axis < 4 implies 0 <= #[trigger] coordinate_at(
            format,
            axis,
            n,
            h,
            w,
            c,
        ) < dims[axis] by {}
    }
    if forall|axis: int|
        0 <= axis < 4 ==> 0 <= #[trigger] coordinate_at(format, axis, n, h, w, c) < dims[axis] {
        assert(coordinate_at(format, ni, n, h, w, c) == n);
        assert(coordinate_at(format, hi, n, h, w, c) == h);
        assert(coordinate_at(format, wi, n, h, w, c) == w);
        assert(coordinate_at(format, ci, n, h, w, c) == c);
    }
}

/// Every coordinate within the extents has its offset within the tensor.
pub proof fn lemma_offset_in_range(dims: Seq<i64>, format: Seq<u8>, n: int, h: int, w: int, c: int)
    requires
        dims.len() == 4,
        is_format(format),
        in_extent(dims, format, n, h, w, c),
    ensures
        0 <= offset_of(dims, format, n, h, w, c) < element_count(dims),
{
    lemma_offset_by_axis(dims, format, n, h, w, c);
    let u0 = coordinate_at(format, 0, n, h, w, c);
    let u1 = coordinate_at(format, 1, n, h, w, c);
    let u2 = coordinate_at(format, 2, n, h, w, c);
    let u3 = coordinate_at(format, 3, n, h, w, c);
    let d0 = dims[0] as int;
    let d1 = dims[1] as int;
    let d2 = dims[2] as int;
    let d3 = dims[3] as int;
    lemma_nested(u0, u1, u2, u3, d1, d2, d3);
    lemma_digit_bound(u0, u1, d0, d1);
    lemma_digit_bound(u0 * d1 + u1, u2, d0 * d1, d2);
    lemma_digit_bound((u0 * d1 + u1) * d2 + u2, u3, d0 * d1 * d2, d3);
}

/// Two coordinates within the extents that share an offset are the same
/// coordinate.
pub proof fn lemma_offset_injective(
    dims: Seq<i64>,
    format: Seq<u8>,
    n1: int,
    h1: int,
    w1: int,
    c1: int,
    n2: int,
    h2: int,
    w2: int,
    c2: int,
)
    requires
        dims.len() == 4,
        is_format(format),
        in_extent(dims, format, n1, h1, w1, c1),
        in_extent(dims, format, n2, h2, w2, c2),
        offset_of(dims, format, n1, h1, w1, c1) == offset_of(dims, format, n2, h2, w2, c2),
    ensures
        n1 == n2,
        h1 == h2,
        w1 == w2,
        c1 == c2,
{
    lemma_format_is_permutation(format);
    lemma_offset_by_axis(dims, format, n1, h1, w1, c1);
    lemma_offset_by_axis(dims, format, n2, h2, w2, c2);
    let u0 = coordinate_at(format, 0, n1, h1, w1, c1);
    let u1 = coordinate_at(format, 1, n1, h1, w1, c1);
    let u2 = coordinate_at(format, 2, n1, h1, w1, c1);
    let u3 = coordinate_at(format, 3, n1, h1, w1, c1);
    let v0 = coordinate_at(format, 0, n2, h2, w2, c2);
    let v1 = coordinate_at(format, 1, n2, h2, w2, c2);
    let v2 = coordinate_at(format, 2, n2, h2, w2, c2);
    let v3 = coordinate_at(format, 3, n2, h2, w2, c2);
    let d1 = dims[1] as int;
    let d2 = dims[2] as int;
    let d3 = dims[3] as int;
    lemma_nested(u0, u1, u2, u3, d1, d2, d3);
    lemma_nested(v0, v1, v2, v3, d1, d2, d3);
    lemma_digit_unique((u0 * d1 + u1) * d2 + u2, u3, (v0 * d1 + v1) * d2 + v2, v3, d3);
    lemma_digit_unique(u0 * d1 + u1, u2, v0 * d1 + v1, v2, d2);
    lemma_digit_unique(u0, u1, v0, v1, d1);
}

/// Every offset within a tensor without an empty axis is the offset of a
/// coordinate within the extents, which `coordinates_of` names.
pub proof fn lemma_offset_surjective(dims: Seq<i64>, format: Seq<u8>, offset: int)
    requires
        is_positive_shape(dims),
        is_format(format),
        0 <= offset < element_count(dims),
    ensures
        ({
            let (n, h, w, c) = coordinates_of(dims, format, offset);
            &&& in_extent(dims, format, n, h, w, c)
            &&& offset_of(dims, format, n, h, w, c) == offset
        }),
{
    lemma_format_is_permutation(format);
    lemma_positions(dims, offset);
    let (n, h, w, c) = coordinates_of(dims, format, offset);
    lemma_offset_by_axis(dims, format, n, h, w, c);
    assert(coordinate_at(format, 0, n, h, w, c) == position_of(dims, offset, 0));
    assert(coordinate_at(format, 1, n, h, w, c) == position_of(dims, offset, 1));
    assert(coordinate_at(format, 2, n, h, w, c) == position_of(dims, offset, 2));
    assert(coordinate_at(format, 3, n, h, w, c) == position_of(dims, offset, 3));
}

/// For every format and every shape without an empty axis, the layout is a
/// bijection between the coordinates within the extents and the offsets
/// below the element count: every such coordinate has such an offset, no two
/// share one, and every such offset is that of such a coordinate.
pub proof fn lemma_offsets_are_a_bijection(dims: Seq<i64>, format: Seq<u8>)
    requires
        is_positive_shape(dims),
        is_format(format),
    ensures
        forall|n: int, h: int, w: int, c: int|
            in_extent(dims, format, n, h, w, c) ==> 0 <= #[trigger] offset_of(
                dims,
                format,
                n,
                h,
                w,
                c,
            ) < element_count(dims),
        forall|n1: int, h1: int, w1: int, c1: int, n2: int, h2: int, w2: int, c2: int|
            #![trigger offset_of(dims, format, n1, h1, w1, c1), offset_of(dims, format, n2, h2, w2, c2)]
            in_extent(dims, format, n1, h1, w1, c1) && in_extent(dims, format, n2, h2, w2, c2)
                && offset_of(dims, format, n1, h1, w1, c1) == offset_of(
                dims,
                format,
                n2,
                h2,
                w2,
                c2,
            ) ==> n1 == n2 && h1 == h2 && w1 == w2 && c1 == c2,
        forall|offset: int|
            0 <= offset < element_count(dims) ==> ({
                let (n, h, w, c) = #[trigger] coordinates_of(dims, format, offset);
                &&& in_extent(dims, format, n, h, w, c)
                &&& offset_of(dims, format, n, h, w, c) == offset
            }),
{
    assert forall|n: int, h: int, w: int, c: int|
        in_extent(dims, format, n, h, w, c) implies 0 <= #[trigger] offset_of(
        dims,
        format,
        n,
        h,
        w,
        c,
    ) < element_count(dims) by {
        lemma_offset_in_range(dims, format, n, h, w, c);
    }
    assert forall|n1: int, h1: int, w1: int, c1: int, n2: int, h2: int, w2: int, c2: int|
        #![trigger offset_of(dims, format, n1, h1, w1, c1), offset_of(dims, format, n2, h2, w2, c2)]
        in_extent(dims, format, n1, h1, w1, c1) && in_extent(dims, format, n2, h2, w2, c2)
            && offset_of(dims, format, n1, h1, w1, c1) == offset_of(
            dims,
            format,
            n2,
            h2,
            w2,
            c2,
        ) implies n1 == n2 && h1 == h2 && w1 == w2 && c1 == c2 by {
        lemma_offset_injective(dims, format, n1, h1, w1, c1, n2, h2, w2, c2);
    }
    assert forall|offset: int| 0 <= offset < element_count(dims) implies ({
        let (n, h, w, c) = #[trigger] coordinates_of(dims, format, offset);
        &&& in_extent(dims, format, n, h, w, c)
        &&& offset_of(dims, format, n, h, w, c) == offset
    }) by {
        lemma_offset_surjective(dims, format, offset);
    }
}

/// The positions of an offset along the four axes lie within the extents
/// and add up to the offset again.
proof fn lemma_positions(dims: Seq<i64>, offset: int)
    requires
        is_positive_shape(dims),
        0 <= offset < element_count(dims),
    ensures
        forall|axis: int| 0 <= axis < 4 ==> 0 <= #[trigger] position_of(dims, offset, axis) < dims[axis],
        position_of(dims, offset, 0) * stride(dims, 0) + position_of(dims, offset, 1) * stride(
            dims,
            1,
        ) + position_of(dims, offset, 2) * stride(dims, 2) + position_of(dims, offset, 3) * stride(
            dims,
            3,
        ) == offset,
{
    let d0 = dims[0] as int;
    let d1 = dims[1] as int;
    let d2 = dims[2] as int;
    let d3 = dims[3] as int;
    let x = offset;
    let v2 = x / d3;
    let v1 = v2 / d2;
    let v0 = v1 / d1;
    let u3 = x % d3;
    let u2 = v2 % d2;
    let u1 = v1 % d1;
    vstd::arithmetic::div_mod::lemma_fundamental_div_mod(x, d3);
    vstd::arithmetic::div_mod::lemma_fundamental_div_mod(v2, d2);
    vstd::arithmetic::div_mod::lemma_fundamental_div_mod(v1, d1);
    vstd::arithmetic::div_mod::lemma_mod_pos_bound(x, d3);
    vstd::arithmetic::div_mod::lemma_div_pos_is_pos(x, d3);
    vstd::arithmetic::div_mod::lemma_mod_pos_bound(v2, d2);
    vstd::arithmetic::div_mod::lemma_div_pos_is_pos(v2, d2);
    vstd::arithmetic::div_mod::lemma_mod_pos_bound(v1, d1);
    vstd::arithmetic::div_mod::lemma_div_pos_is_pos(v1, d1);
    assert(d0 * d1 * d2 * d3 == d3 * (d2 * (d1 * d0)) && d2 * d3 == d3 * d2 && d1 * d2 * d3 == d3
        * d2 * d1 && d3 * d2 * d1 == (d3 * d2) * d1) by (nonlinear_arith);
    vstd::arithmetic::div_mod::lemma_multiply_divide_lt(x, d3, d2 * (d1 * d0));
    vstd::arithmetic::div_mod::lemma_multiply_divide_lt(v2, d2, d1 * d0);
    vstd::arithmetic::div_mod::lemma_multiply_divide_lt(v1, d1, d0);
    vstd::arithmetic::div_mod::lemma_div_denominator(x, d3, d2);
    vstd::arithmetic::div_mod::lemma_div_denominator(x, d3 * d2, d1);
    assert(0 < d3 * d2) by (nonlinear_arith)
        requires
            0 < d3,
            0 < d2,
    ;
    assert(v1 == x / (d2 * d3));
    assert(v0 == x / (d1 * d2 * d3));
    vstd::arithmetic::div_mod::lemma_small_mod(v0 as nat, d0 as nat);
    assert(position_of(dims, offset, 3) == u3);
    assert(position_of(dims, offset, 2) == u2);
    assert(position_of(dims, offset, 1) == u1);
    assert(position_of(dims, offset, 0) == v0);
    lemma_nested(v0, u1, u2, u3, d1, d2, d3);
    assert(nested(v0, u1, u2, u3, d1, d2, d3) == x) by (nonlinear_arith)
        requires
            x == d3 * v2 + u3,
            v2 == d2 * v1 + u2,
            v1 == d1 * v0 + u1,
    ;
}

/// In a shape without an empty axis no extent exceeds the element count.
pub proof fn lemma_extent_within_count(dims: Seq<i64>, axis: int)
    requires
        is_positive_shape(dims),
        0 <= axis < 4,
    ensures
        dims[axis] <= element_count(dims),
{
    let d0 = dims[0] as int;
    let d1 = dims[1] as int;
    let d2 = dims[2] as int;
    let d3 = dims[3] as int;
    assert(d0 <= d0 * d1 * d2 * d3 && d1 <= d0 * d1 * d2 * d3 && d2 <= d0 * d1 * d2 * d3 && d3 <= d0
        * d1 * d2 * d3) by (nonlinear_arith)
        requires
            1 <= d0,
            1 <= d1,
            1 <= d2,
            1 <= d3,
    ;
}

} // verus!
