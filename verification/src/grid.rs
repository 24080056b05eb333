//! The square DEM raster: DEM IDs, raster coordinates and neighbourhoods.

use vstd::prelude::*;

verus! {

/// The integer square root of `n`, rounded down.
pub open spec fn sqrt_floor(n: nat) -> nat
    decreases n,
{
    if n == 0 {
        0
    } else {
        let r = sqrt_floor((n - 1) as nat);
        if (r + 1) * (r + 1) <= n {
            r + 1
        } else {
            r
        }
    }
}

/// `r` is the square root of `n`, rounded down.
pub open spec fn is_sqrt_floor(n: int, r: int) -> bool {
    0 <= r && r * r <= n < (r + 1) * (r + 1)
}

/// `sqrt_floor` is the rounded-down square root, and the only one.
pub proof fn lemma_sqrt_floor(n: nat)
    ensures
        is_sqrt_floor(n as int, sqrt_floor(n) as int),
        forall|r: int| is_sqrt_floor(n as int, r) ==> r == sqrt_floor(n),
    decreases n,
{
    if n > 0 {
        lemma_sqrt_floor((n - 1) as nat);
        let r = sqrt_floor((n - 1) as nat) as int;
        assert((r + 1) * (r + 1) <= n ==> (r + 2) * (r + 2) > n) by (nonlinear_arith)
            requires
                r * r <= n - 1 < (r + 1) * (r + 1),
                0 <= r,
        ;
    }
    assert forall|r: int| is_sqrt_floor(n as int, r) implies r == sqrt_floor(n) by {
        lemma_sqrt_unique(n as int, r, sqrt_floor(n) as int);
    }
}

proof fn lemma_sqrt_unique(n: int, a: int, b: int)
    requires
        is_sqrt_floor(n, a),
        is_sqrt_floor(n, b),
    ensures
        a == b,
{
    if a < b {
        assert((a + 1) * (a + 1) <= b * b) by (nonlinear_arith)
            requires
                0 <= a < b,
        ;
    } else if b < a {
        assert((b + 1) * (b + 1) <= a * a) by (nonlinear_arith)
            requires
                0 <= b < a,
        ;
    }
}

/// The square root of a non-negative `i64`, rounded down (as `i64::isqrt`).
pub fn isqrt(n: i64) -> (r: i64)
    requires
        n >= 0,
    ensures
        r == sqrt_floor(n as nat),
        is_sqrt_floor(n as int, r as int),
{
    // 3_037_000_500 squared exceeds `i64::MAX`.
    let mut lo: u64 = 0;
    let mut hi: u64 = 3_037_000_500;
    let target: u64 = n as u64;
    assert(hi * hi > i64::MAX) by (nonlinear_arith)
        requires
            hi == 3_037_000_500u64,
    ;
    while hi - lo > 1
        invariant
            lo < hi <= 3_037_000_500,
            target == n,
            lo * lo <= target,
            target < hi * hi,
        decreases hi - lo,
    {
        let mid: u64 = lo + (hi - lo) / 2;
        assert(mid * mid < 0x1_0000_0000_0000_0000) by (nonlinear_arith)
            requires
                mid < 3_037_000_500,
        ;
        if mid * mid <= target {
            lo = mid;
        } else {
            hi = mid;
        }
    }
    proof {
        lemma_sqrt_floor(n as nat);
        assert(is_sqrt_floor(n as int, lo as int));
    }
    lo as i64
}


/// The column of a DEM ID in a raster `width` points wide (Euclidean remainder).
pub open spec fn raster_x(dem_id: int, width: int) -> int {
    dem_id % width
}

/// The row of a DEM ID in a raster `width` points wide (Euclidean quotient).
pub open spec fn raster_y(dem_id: int, width: int) -> int {
    dem_id / width
}

/// The DEM ID of the raster point at column `x` and row `y`.
pub open spec fn dem_id_of(x: int, y: int, width: int) -> int {
    y * width + x
}

/// The side, in raster points, of a square neighbourhood of `size` points.
pub open spec fn neighbourhood_width(size: int) -> int {
    sqrt_floor(size as nat) as int
}

/// The number of whole neighbourhoods across one row of the global raster.
pub open spec fn neighbourhoods_per_row(global_width: int, size: int) -> int {
    global_width / neighbourhood_width(size)
}

/// The neighbourhood column of the point with the given DEM ID.
pub open spec fn neighbourhood_x(index: int, global_width: int, size: int) -> int {
    raster_x(index, global_width) / neighbourhood_width(size)
}

/// The neighbourhood row of the point with the given DEM ID.
pub open spec fn neighbourhood_y(index: int, global_width: int, size: int) -> int {
    raster_y(index, global_width) / neighbourhood_width(size)
}

/// The ID of the neighbourhood that holds the point with the given DEM ID: neighbourhoods
/// are numbered row by row, `neighbourhoods_per_row` to a row.
pub open spec fn neighbourhood_of(index: int, global_width: int, size: int) -> int {
    neighbourhood_y(index, global_width, size) * neighbourhoods_per_row(global_width, size)
        + neighbourhood_x(index, global_width, size)
}

/// The inputs on which the neighbourhood ID can be computed in `i64` without a division by
/// zero, a negative square root or an overflow.
pub open spec fn neighbourhood_id_defined(index: i64, global_width: i64, size: i64) -> bool {
    let product = neighbourhood_y(index as int, global_width as int, size as int)
        * neighbourhoods_per_row(global_width as int, size as int);
    &&& global_width != 0
    &&& size >= 1
    &&& !(index == i64::MIN && global_width == -1)
    &&& i64::MIN <= product <= i64::MAX
    &&& i64::MIN <= neighbourhood_of(index as int, global_width as int, size as int) <= i64::MAX
}

/// The Euclidean quotient of two `i64` values fits in an `i64`, but for `i64::MIN / -1`.
proof fn lemma_euclid_div_in_range(a: int, b: int)
    requires
        b != 0,
        i64::MIN <= a <= i64::MAX,
        i64::MIN <= b <= i64::MAX,
        !(a == i64::MIN && b == -1),
    ensures
        i64::MIN <= a / b <= i64::MAX,
{
    let q = a / b;
    let r = a % b;
    vstd::arithmetic::div_mod::lemma_fundamental_div_mod(a, b);
    assert(0 <= r < if b > 0 { b } else { -b });
    if b > 0 {
        assert(i64::MIN <= q <= i64::MAX) by (nonlinear_arith)
            requires
                a == b * q + r,
                0 <= r < b,
                b > 0,
                i64::MIN <= a <= i64::MAX,
        ;
    } else if b == -1 {
        assert(q == -a) by (nonlinear_arith)
            requires
                a == b * q + r,
                0 <= r < 1,
                b == -1,
        ;
    } else {
        assert(i64::MIN <= q <= i64::MAX) by (nonlinear_arith)
            requires
                a == b * q + r,
                0 <= r < -b,
                b <= -2,
                i64::MIN <= a <= i64::MAX,
        ;
    }
}

/// Find which neighbourhood a given index is in, or `None` where the computation would divide
/// by zero, take the square root of a negative size, or overflow.
pub fn checked_neighbourhood_id(index: i64, global_width: i64, neighbourhood_size: i64) -> (r:
    Option<i64>)
    ensures
        r == if neighbourhood_id_defined(index, global_width, neighbourhood_size) {
            Some(neighbourhood_of(index as int, global_width as int, neighbourhood_size as int) as i64)
        } else {
            None::<i64>
        },
{
    if neighbourhood_size < 1 {
        return None;
    }
    let global_x = match index.checked_rem_euclid(global_width) {
        Some(v) => v,
        None => return None,
    };
    proof {
        lemma_euclid_div_in_range(index as int, global_width as int);
    }
    let global_y = match index.checked_div_euclid(global_width) {
        Some(v) => v,
        None => return None,
    };
    let neighbourhood_width = isqrt(neighbourhood_size);
    proof {
        lemma_sqrt_floor(neighbourhood_size as nat);
        if neighbourhood_width == 0 {
            assert(neighbourhood_size < 1) by (nonlinear_arith)
                requires
                    neighbourhood_size < (neighbourhood_width + 1) * (neighbourhood_width + 1),
                    neighbourhood_width == 0,
            ;
        }
        lemma_euclid_div_in_range(global_width as int, neighbourhood_width as int);
        lemma_euclid_div_in_range(global_y as int, neighbourhood_width as int);
    }
    let neighbourhoods_per_row = global_width.checked_div_euclid(neighbourhood_width).unwrap();
    let neighbourhood_x = global_x.checked_div_euclid(neighbourhood_width).unwrap();
    let neighbourhood_y = global_y.checked_div_euclid(neighbourhood_width).unwrap();
    let row_start = match neighbourhood_y.checked_mul(neighbourhoods_per_row) {
        Some(v) => v,
        None => return None,
    };
    row_start.checked_add(neighbourhood_x)
}

/// Find which neighbourhood a given index is in.
pub fn get_neighbourhood_id(index: i64, global_width: i64, neighbourhood_size: i64) -> (r: i64)
    requires
        neighbourhood_id_defined(index, global_width, neighbourhood_size),
    ensures
        r == neighbourhood_of(index as int, global_width as int, neighbourhood_size as int),
{
    match checked_neighbourhood_id(index, global_width, neighbourhood_size) {
        Some(id) => id,
        None => 0,
    }
}


/// The raster column and row of a DEM ID in a raster `width` points wide.
pub fn dem_id_to_raster(dem_id: i64, width: u32) -> (r: (i64, i64))
    requires
        width > 0,
    ensures
        r.0 == raster_x(dem_id as int, width as int),
        r.1 == raster_y(dem_id as int, width as int),
        0 <= r.0 < width,
{
    let w = width as i64;
    proof {
        lemma_euclid_div_in_range(dem_id as int, w as int);
    }
    let x = dem_id.checked_rem_euclid(w).unwrap();
    let y = dem_id.checked_div_euclid(w).unwrap();
    (x, y)
}

/// The DEM ID of the raster point at column `x` and row `y` of a raster `width` points wide,
/// or `None` where the computation overflows an `i64`.
pub fn raster_to_dem_id(x: i64, y: i64, width: u32) -> (r: Option<i64>)
    ensures
        r == if i64::MIN <= y * width <= i64::MAX && i64::MIN <= dem_id_of(
            x as int,
            y as int,
            width as int,
        ) <= i64::MAX {
            Some(dem_id_of(x as int, y as int, width as int) as i64)
        } else {
            None::<i64>
        },
{
    let row_start = match y.checked_mul(width as i64) {
        Some(v) => v,
        None => return None,
    };
    row_start.checked_add(x)
}

/// The DEM ID of the raster point at column `x` and row `y` of a raster `width` points wide,
/// in `u32`, or `None` where the computation overflows a `u32`.
pub fn raster_to_dem_id_u32(x: u32, y: u32, width: u32) -> (r: Option<u32>)
    ensures
        r == if y * width <= u32::MAX && dem_id_of(x as int, y as int, width as int) <= u32::MAX {
            Some(dem_id_of(x as int, y as int, width as int) as u32)
        } else {
            None::<u32>
        },
{
    let row_start = match y.checked_mul(width) {
        Some(v) => v,
        None => return None,
    };
    row_start.checked_add(x)
}

/// A DEM ID is recovered from its raster column and row.
pub proof fn lemma_raster_to_dem_id_roundtrip(dem_id: int, width: int)
    requires
        width > 0,
    ensures
        dem_id_of(raster_x(dem_id, width), raster_y(dem_id, width), width) == dem_id,
        0 <= raster_x(dem_id, width) < width,
{
    vstd::arithmetic::div_mod::lemma_fundamental_div_mod(dem_id, width);
    assert(raster_y(dem_id, width) * width == width * raster_y(dem_id, width)) by (nonlinear_arith);
}

/// A raster point inside the raster's width is recovered from its DEM ID.
pub proof fn lemma_dem_id_to_raster_roundtrip(x: int, y: int, width: int)
    requires
        width > 0,
        0 <= x < width,
    ensures
        raster_x(dem_id_of(x, y, width), width) == x,
        raster_y(dem_id_of(x, y, width), width) == y,
{
    lemma_div_mod_unique(dem_id_of(x, y, width), width, y, x);
}

/// The quotient and remainder of a division by a positive divisor are unique.
proof fn lemma_div_mod_unique(a: int, m: int, q: int, r: int)
    requires
        m > 0,
        a == q * m + r,
        0 <= r < m,
    ensures
        a / m == q,
        a % m == r,
{
    vstd::arithmetic::div_mod::lemma_fundamental_div_mod(a, m);
    let q2 = a / m;
    let r2 = a % m;
    assert(q2 == q && r2 == r) by (nonlinear_arith)
        requires
            a == m * q2 + r2,
            a == q * m + r,
            0 <= r < m,
            0 <= r2 < m,
    ;
}

/// The neighbourhood of the point at column `x` and row `y` is found from the point's
/// neighbourhood column and row.
pub proof fn lemma_neighbourhood_of_raster_point(x: int, y: int, global_width: int, size: int)
    requires
        global_width > 0,
        size >= 1,
        0 <= x < global_width,
    ensures
        neighbourhood_of(dem_id_of(x, y, global_width), global_width, size) == (y
            / neighbourhood_width(size)) * neighbourhoods_per_row(global_width, size) + x
            / neighbourhood_width(size),
{
    lemma_dem_id_to_raster_roundtrip(x, y, global_width);
}

/// The neighbourhood width of a size of at least one point is at least one.
pub proof fn lemma_neighbourhood_width_positive(size: int)
    requires
        size >= 1,
    ensures
        neighbourhood_width(size) >= 1,
        neighbourhood_width(size) * neighbourhood_width(size) <= size,
{
    lemma_sqrt_floor(size as nat);
    let w = neighbourhood_width(size);
    if w == 0 {
        assert(size < 1) by (nonlinear_arith)
            requires
                size < (w + 1) * (w + 1),
                w == 0,
        ;
    }
}

/// Two points in the same square block of the raster are in the same neighbourhood.
pub proof fn lemma_same_block_same_neighbourhood(i: int, j: int, global_width: int, size: int)
    requires
        global_width != 0,
        size >= 1,
        raster_x(i, global_width) / neighbourhood_width(size) == raster_x(j, global_width)
            / neighbourhood_width(size),
        raster_y(i, global_width) / neighbourhood_width(size) == raster_y(j, global_width)
            / neighbourhood_width(size),
    ensures
        neighbourhood_of(i, global_width, size) == neighbourhood_of(j, global_width, size),
{
}

/// Where the neighbourhood width divides the raster's width, points in different square
/// blocks of the raster are in different neighbourhoods.
pub proof fn lemma_different_blocks_different_neighbourhoods(
    i: int,
    j: int,
    global_width: int,
    size: int,
)
    requires
        global_width > 0,
        size >= 1,
        global_width % neighbourhood_width(size) == 0,
        neighbourhood_x(i, global_width, size) != neighbourhood_x(j, global_width, size)
            || neighbourhood_y(i, global_width, size) != neighbourhood_y(j, global_width, size),
    ensures
        neighbourhood_of(i, global_width, size) != neighbourhood_of(j, global_width, size),
{
    let nw = neighbourhood_width(size);
    lemma_neighbourhood_width_positive(size);
    let per_row = neighbourhoods_per_row(global_width, size);
    vstd::arithmetic::div_mod::lemma_fundamental_div_mod(global_width, nw);
    assert(global_width == nw * per_row);
    lemma_block_column_in_row(i, global_width, nw, per_row);
    lemma_block_column_in_row(j, global_width, nw, per_row);
    let xi = neighbourhood_x(i, global_width, size);
    let xj = neighbourhood_x(j, global_width, size);
    let yi = neighbourhood_y(i, global_width, size);
    let yj = neighbourhood_y(j, global_width, size);
    if neighbourhood_of(i, global_width, size) == neighbourhood_of(j, global_width, size) {
        assert(per_row > 0) by (nonlinear_arith)
            requires
                global_width == nw * per_row,
                global_width > 0,
                nw >= 1,
        ;
        lemma_div_mod_unique(yi * per_row + xi, per_row, yi, xi);
        lemma_div_mod_unique(yj * per_row + xj, per_row, yj, xj);
    }
}

/// A point's neighbourhood column lies within the row of neighbourhoods when the
/// neighbourhood width divides the raster's width.
proof fn lemma_block_column_in_row(i: int, global_width: int, nw: int, per_row: int)
    requires
        global_width > 0,
        nw >= 1,
        global_width == nw * per_row,
    ensures
        0 <= raster_x(i, global_width) / nw < per_row,
{
    let x = raster_x(i, global_width);
    vstd::arithmetic::div_mod::lemma_fundamental_div_mod(i, global_width);
    assert(0 <= x < global_width);
    vstd::arithmetic::div_mod::lemma_fundamental_div_mod(x, nw);
    let q = x / nw;
    let r = x % nw;
    assert(0 <= q < per_row) by (nonlinear_arith)
        requires
            x == nw * q + r,
            0 <= r < nw,
            0 <= x < nw * per_row,
            nw >= 1,
    ;
}

/// On a raster of positive width, the neighbourhood of a non-negative DEM ID is
/// non-negative.
pub proof fn lemma_neighbourhood_id_non_negative(index: int, global_width: int, size: int)
    requires
        index >= 0,
        global_width > 0,
        size >= 1,
    ensures
        neighbourhood_of(index, global_width, size) >= 0,
{
    let nw = neighbourhood_width(size);
    lemma_neighbourhood_width_positive(size);
    vstd::arithmetic::div_mod::lemma_fundamental_div_mod(index, global_width);
    let y = raster_y(index, global_width);
    let x = raster_x(index, global_width);
    assert(y >= 0) by (nonlinear_arith)
        requires
            index == global_width * y + x,
            0 <= x < global_width,
            index >= 0,
    ;
    vstd::arithmetic::div_mod::lemma_div_pos_is_pos(y, nw);
    vstd::arithmetic::div_mod::lemma_div_pos_is_pos(x, nw);
    vstd::arithmetic::div_mod::lemma_div_pos_is_pos(global_width, nw);
    let per_row = neighbourhoods_per_row(global_width, size);
    assert((y / nw) * per_row >= 0) by (nonlinear_arith)
        requires
            y / nw >= 0,
            per_row >= 0,
    ;
}

/// Neighbourhoods are numbered row by row from the raster's origin: DEM ID 0 is in
/// neighbourhood 0, a point one neighbourhood width to the right (in the same raster row) is
/// in the next neighbourhood, and a point one neighbourhood width further down is
/// `global_width / width` neighbourhoods further on.
pub proof fn lemma_neighbourhood_steps(index: int, global_width: int, size: int)
    requires
        global_width > 0,
        size >= 1,
    ensures
        neighbourhood_of(0, global_width, size) == 0,
        raster_x(index, global_width) + neighbourhood_width(size) < global_width
            ==> neighbourhood_of(index + neighbourhood_width(size), global_width, size)
            == neighbourhood_of(index, global_width, size) + 1,
        neighbourhood_of(index + global_width * neighbourhood_width(size), global_width, size)
            == neighbourhood_of(index, global_width, size) + global_width / neighbourhood_width(
            size,
        ),
{
    let nw = neighbourhood_width(size);
    lemma_neighbourhood_width_positive(size);
    lemma_div_mod_unique(0, global_width, 0, 0);
    lemma_div_mod_unique(0, nw, 0, 0);
    assert(0 * (global_width / nw) == 0);
    vstd::arithmetic::div_mod::lemma_fundamental_div_mod(index, global_width);
    let x = raster_x(index, global_width);
    let y = raster_y(index, global_width);
    assert(index == y * global_width + x) by (nonlinear_arith)
        requires
            index == global_width * y + x,
    ;
    vstd::arithmetic::div_mod::lemma_fundamental_div_mod(x, nw);
    let qx = x / nw;
    let rx = x % nw;
    if x + nw < global_width {
        assert(index + nw == y * global_width + (x + nw));
        lemma_div_mod_unique(index + nw, global_width, y, x + nw);
        assert(x + nw == (qx + 1) * nw + rx) by (nonlinear_arith)
            requires
                x == nw * qx + rx,
        ;
        lemma_div_mod_unique(x + nw, nw, qx + 1, rx);
    }
    vstd::arithmetic::div_mod::lemma_fundamental_div_mod(y, nw);
    let qy = y / nw;
    let ry = y % nw;
    assert(index + global_width * nw == (y + nw) * global_width + x) by (nonlinear_arith)
        requires
            index == y * global_width + x,
    ;
    lemma_div_mod_unique(index + global_width * nw, global_width, y + nw, x);
    assert(y + nw == (qy + 1) * nw + ry) by (nonlinear_arith)
        requires
            y == nw * qy + ry,
    ;
    lemma_div_mod_unique(y + nw, nw, qy + 1, ry);
    let per_row = global_width / nw;
    assert((qy + 1) * per_row == qy * per_row + per_row) by (nonlinear_arith);
}

} // verus!
