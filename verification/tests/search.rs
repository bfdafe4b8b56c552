use qr_screen::raster::{parts, Raster};
use qr_screen::search::is_searchable;

fn raster(rows: &[&str]) -> Raster {
    Raster {
        width: rows[0].len(),
        height: rows.len(),
        dark: rows.iter().flat_map(|row| row.bytes()).map(|b| b == b'#').collect(),
    }
}

/// Marks a finder pattern with units of the given size.
fn add_finder(r: &mut Raster, left: usize, top: usize, unit: usize) {
    for j in 0..7 * unit {
        for i in 0..7 * unit {
            let (col, row) = (i / unit, j / unit);
            let frame = col == 0 || col == 6 || row == 0 || row == 6;
            let core = (2..5).contains(&col) && (2..5).contains(&row);
            r.dark[(top + j) * r.width + left + i] = frame || core;
        }
    }
}

fn blank(width: usize, height: usize) -> Raster {
    Raster { width, height, dark: vec![false; width * height] }
}

fn with_finders(finders: &[(usize, usize, usize)]) -> Raster {
    let mut r = blank(120, 120);
    for (left, top, unit) in finders {
        add_finder(&mut r, *left, *top, *unit);
    }
    r
}

#[test]
fn parts_are_told_apart() {
    let r = raster(&["##..#", ".#..#", ".####", "#...."]);
    let labels = parts(&r);
    assert_eq!(labels.len(), 20);
    assert_eq!(labels[0], labels[4]);
    assert_eq!(labels[0], labels[13]);
    assert_ne!(labels[0], labels[15]);
}

#[test]
fn rows_do_not_touch_around_the_edge() {
    let labels = parts(&raster(&["..#", "#.."]));
    assert_ne!(labels[2], labels[3]);
}

#[test]
fn pixels_outside_are_light() {
    let r = raster(&["##", "##"]);
    assert!(r.is_dark(1, 1));
    assert!(!r.is_dark(2, 0));
    assert!(!r.is_dark(0, 2));
}

#[test]
fn blank_pictures_are_searched() {
    assert!(is_searchable(&blank(10, 10)));
    assert!(is_searchable(&blank(32767, 1)));
    assert!(!is_searchable(&blank(32768, 1)));
    assert!(is_searchable(&blank(1, 100000)));
    assert!(is_searchable(&blank(0, 0)));
    assert!(is_searchable(&blank(7, 0)));
    assert!(!is_searchable(&blank(0, 7)));
}

#[test]
fn finders_of_a_code_are_searched() {
    assert!(is_searchable(&with_finders(&[(10, 10, 3)])));
    assert!(is_searchable(&with_finders(&[(0, 0, 3), (99, 70, 3)])));
    assert!(is_searchable(&with_finders(&[(10, 10, 3), (60, 10, 3), (10, 60, 3)])));
    assert!(is_searchable(&with_finders(&[(60, 10, 3), (10, 60, 3), (60, 60, 3)])));
    assert!(is_searchable(&with_finders(&[(10, 10, 3), (10, 60, 3), (60, 60, 3)])));
    assert!(is_searchable(&with_finders(&[(10, 10, 3), (60, 10, 3), (60, 60, 3)])));
    assert!(is_searchable(&with_finders(&[(10, 10, 3), (60, 10, 3), (10, 60, 3), (60, 60, 3)])));
}

#[test]
fn finders_that_make_no_code_are_searched() {
    assert!(is_searchable(&with_finders(&[(10, 10, 3), (40, 30, 3), (80, 60, 3)])));
    assert!(is_searchable(&with_finders(&[(10, 10, 2), (30, 10, 2), (10, 90, 2)])));
}

#[test]
fn skewed_groups_of_finders_are_not_searched() {
    assert!(!is_searchable(&with_finders(&[(10, 10, 3), (60, 11, 3), (10, 60, 3)])));
    assert!(!is_searchable(&with_finders(&[(10, 10, 3), (60, 10, 3), (12, 60, 3)])));
    assert!(!is_searchable(&with_finders(&[(10, 10, 3), (60, 10, 2), (10, 60, 3)])));
}

#[test]
fn low_finders_are_not_searched() {
    let mut r = blank(9, 32800);
    add_finder(&mut r, 1, 32760, 1);
    assert!(is_searchable(&r));
    let mut r = blank(9, 32800);
    add_finder(&mut r, 1, 32761, 1);
    assert!(!is_searchable(&r));
}

#[test]
fn long_timing_pattern_needs_an_alignment_square() {
    let mut r = with_finders(&[(10, 10, 2), (80, 10, 2), (10, 80, 2)]);
    let row = 10 + (13 * 2 - 1) / 2;
    for x in (26..78).step_by(4) {
        r.dark[row * 120 + x] = true;
    }
    assert!(!is_searchable(&r));
    for (x, y) in [(80, 80), (81, 80), (80, 81), (81, 81)] {
        r.dark[y * 120 + x] = true;
    }
    assert!(is_searchable(&r));
    r.dark[82 * 120 + 80] = true;
    assert!(!is_searchable(&r));
}

#[test]
fn rings_that_are_no_finders_are_not_searched() {
    let ring = [
        ".........",
        ".#######.",
        ".#.....#.",
        ".#.###.#.",
        ".#.....#.",
        ".#######.",
        ".........",
    ];
    assert!(!is_searchable(&raster(&ring)));
    let open = [
        ".........",
        ".###.###.",
        ".#.....#.",
        ".#.###.#.",
        ".#.....#.",
        ".###.###.",
        ".........",
    ];
    assert!(is_searchable(&raster(&open)));
    let wide = [
        ".............",
        ".###########.",
        ".#.........#.",
        ".#.#######.#.",
        ".#.........#.",
        ".###########.",
        ".............",
    ];
    assert!(is_searchable(&raster(&wide)));
    let mut spur = with_finders(&[(10, 10, 3)]);
    spur.dark[9 * 120 + 15] = true;
    assert!(!is_searchable(&spur));
}
