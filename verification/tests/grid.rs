use viewview::grid::{
    checked_neighbourhood_id, dem_id_to_raster, get_neighbourhood_id, isqrt, raster_to_dem_id,
    raster_to_dem_id_u32,
};

#[test]
fn isqrt_rounds_down() {
    assert_eq!(isqrt(0), 0);
    assert_eq!(isqrt(1), 1);
    assert_eq!(isqrt(3), 1);
    assert_eq!(isqrt(4), 2);
    assert_eq!(isqrt(15), 3);
    assert_eq!(isqrt(16), 4);
    assert_eq!(isqrt(1_000_000), 1000);
    assert_eq!(isqrt(i64::MAX), 3_037_000_499);
}

#[test]
fn neighbourhood_of_small_grid() {
    // A 4x4 raster in neighbourhoods of 2x2 points.
    assert_eq!(get_neighbourhood_id(0, 4, 4), 0);
    assert_eq!(get_neighbourhood_id(5, 4, 4), 0);
    assert_eq!(get_neighbourhood_id(2, 4, 4), 1);
    assert_eq!(get_neighbourhood_id(7, 4, 4), 1);
    assert_eq!(get_neighbourhood_id(8, 4, 4), 2);
    assert_eq!(get_neighbourhood_id(15, 4, 4), 3);
}

#[test]
fn neighbourhood_size_rounds_down_to_a_square() {
    // A size of 8 points gives neighbourhoods 2 points wide.
    assert_eq!(get_neighbourhood_id(3, 4, 8), 1);
    assert_eq!(get_neighbourhood_id(12, 4, 8), 2);
}

#[test]
fn neighbourhood_of_negative_index() {
    // -1 is the last column of row -1.
    assert_eq!(get_neighbourhood_id(-1, 4, 4), -1);
}

#[test]
fn neighbourhoods_collide_where_width_is_not_a_multiple() {
    // A 3-wide raster in 2x2 neighbourhoods: the partial column shares IDs with the next row.
    assert_eq!(get_neighbourhood_id(2, 3, 4), 1);
    assert_eq!(get_neighbourhood_id(6, 3, 4), 1);
}

#[test]
fn checked_neighbourhood_refuses_panicking_inputs() {
    assert_eq!(checked_neighbourhood_id(5, 0, 4), None);
    assert_eq!(checked_neighbourhood_id(5, 4, 0), None);
    assert_eq!(checked_neighbourhood_id(5, 4, -4), None);
    assert_eq!(checked_neighbourhood_id(i64::MIN, -1, 1), None);
    assert_eq!(checked_neighbourhood_id(i64::MIN, 4_294_967_295, 1), None);
    assert_eq!(checked_neighbourhood_id(5, 4, 4), Some(0));
}

#[test]
fn raster_of_dem_id() {
    assert_eq!(dem_id_to_raster(0, 10), (0, 0));
    assert_eq!(dem_id_to_raster(23, 10), (3, 2));
    assert_eq!(dem_id_to_raster(-1, 10), (9, -1));
}

#[test]
fn dem_id_of_raster() {
    assert_eq!(raster_to_dem_id(3, 2, 10), Some(23));
    assert_eq!(raster_to_dem_id(9, -1, 10), Some(-1));
    assert_eq!(raster_to_dem_id(0, i64::MAX, 2), None);
    assert_eq!(raster_to_dem_id(i64::MAX, 1, 1), None);
    assert_eq!(raster_to_dem_id_u32(3, 2, 10), Some(23));
    assert_eq!(raster_to_dem_id_u32(0, u32::MAX, 2), None);
    assert_eq!(raster_to_dem_id_u32(u32::MAX, 1, 1), None);
}

#[test]
fn raster_roundtrip() {
    for dem_id in [-25i64, -1, 0, 1, 9, 10, 99, 12345] {
        let (x, y) = dem_id_to_raster(dem_id, 10);
        assert_eq!(raster_to_dem_id(x, y, 10), Some(dem_id));
    }
    for (x, y) in [(0i64, 0i64), (9, 3), (4, -2)] {
        let dem_id = raster_to_dem_id(x, y, 10).unwrap();
        assert_eq!(dem_id_to_raster(dem_id, 10), (x, y));
    }
}

#[test]
fn same_block_same_neighbourhood() {
    // Every point of the block at neighbourhood column 1, row 1 of a 6-wide raster in 3x3
    // neighbourhoods.
    for y in 3..6i64 {
        for x in 3..6i64 {
            assert_eq!(get_neighbourhood_id(y * 6 + x, 6, 9), 3);
        }
    }
}

/// The neighbourhood ID as the std operations compute it.
fn std_neighbourhood_id(index: i64, global_width: i64, neighbourhood_size: i64) -> i64 {
    let global_x = index.rem_euclid(global_width);
    let global_y = index.div_euclid(global_width);
    let neighbourhood_width = neighbourhood_size.isqrt();
    let neighbourhoods_per_row = global_width.div_euclid(neighbourhood_width);
    let neighbourhood_x = global_x.div_euclid(neighbourhood_width);
    let neighbourhood_y = global_y.div_euclid(neighbourhood_width);
    (neighbourhood_y * neighbourhoods_per_row) + neighbourhood_x
}

#[test]
fn neighbourhood_agrees_with_std() {
    for global_width in [-7i64, -1, 1, 2, 3, 10, 17, 4096] {
        for size in [1i64, 2, 3, 4, 8, 9, 10, 100, 1000] {
            for index in -300i64..300 {
                assert_eq!(
                    get_neighbourhood_id(index, global_width, size),
                    std_neighbourhood_id(index, global_width, size)
                );
            }
        }
    }
}

#[test]
fn isqrt_agrees_with_std() {
    for n in (0i64..100_000).chain([i64::MAX, i64::MAX - 1, 3_037_000_499 * 3_037_000_499]) {
        assert_eq!(isqrt(n), n.isqrt());
    }
}
