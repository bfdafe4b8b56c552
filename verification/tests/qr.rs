use qr_screen::qr::{decode_qr, find_grids, first_content, gray_picture, recognize_qr, Grid};

/// A code that reads "rqrr".
const SMALL: [&str; 21] = [
    "111111100010001111111",
    "100000101110001000001",
    "101110100101101011101",
    "101110100000101011101",
    "101110101101101011101",
    "100000100111001000001",
    "111111101010101111111",
    "000000000010000000000",
    "101010100000100010010",
    "100110000001010101001",
    "010110110111011101111",
    "110001001111110110011",
    "001011101001011101001",
    "000000001110001001001",
    "111111100110100010011",
    "100000100110001000010",
    "101110101000101011011",
    "101110100101010101010",
    "101110101101011100001",
    "100000100011110111010",
    "111111101001011100111",
];

/// A code that reads "1234567891011121314151617181920".
const NUMBER: [&str; 29] = [
    "11111110000100011001001111111",
    "10000010001110000100101000001",
    "10111010110100101010001011101",
    "10111010100010001110101011101",
    "10111010111111110001001011101",
    "10000010101101111010101000001",
    "11111110101010101010101111111",
    "00000000100101010000100000000",
    "10111110011000110110101111100",
    "11101000000010011001001011001",
    "01001011100010000100110110010",
    "01111000011100101000000010001",
    "00101011011100001110110101110",
    "00011001000101110001001011001",
    "01001010000001111010010011010",
    "10010101111011010000100010011",
    "00100011011010110110110101110",
    "10011100111110011101001011001",
    "10100111000010000010110110110",
    "10111001111110101010011010000",
    "10111111001000000110111111110",
    "00000000100111110001100011001",
    "11111110011111110011101011110",
    "10000010111101010000100010001",
    "10111010100110111110111111101",
    "10111010101011000101110100100",
    "10111010101000010010001010010",
    "10000010010100100001110110010",
    "11111110111101011110000001100",
];

const SCALE: usize = 5;
const MARGIN: usize = 4;

/// Draws a code with a white margin in BGRA pixels.
fn draw(code: &[&str], alpha: u8) -> (i32, i32, Vec<u8>) {
    let side = (code.len() + 2 * MARGIN) * SCALE;
    let mut px = vec![255u8; side * side * 4];
    for y in 0..side {
        for x in 0..side {
            let (my, mx) = (y / SCALE, x / SCALE);
            let inside = my >= MARGIN && mx >= MARGIN && my < code.len() + MARGIN && mx < code.len() + MARGIN;
            let black = inside && code[my - MARGIN].as_bytes()[mx - MARGIN] == b'1';
            let at = (y * side + x) * 4;
            if black {
                px[at] = 0;
                px[at + 1] = 0;
                px[at + 2] = 0;
            }
            px[at + 3] = alpha;
        }
    }
    (side as i32, side as i32, px)
}

/// What was read, where the selection was searched.
fn reading(w: i32, h: i32, px: &Vec<u8>) -> Option<String> {
    match recognize_qr(w, h, px) {
        Ok(content) => content,
        Err(_) => panic!("not searched"),
    }
}

/// The modules of a code.
fn grid(code: &[&str]) -> Grid {
    Grid { size: code.len(), modules: code.iter().flat_map(|row| row.bytes()).map(|b| b == b'1').collect() }
}

/// Darkens a rectangle of BGRA pixels.
fn blacken(px: &mut Vec<u8>, w: i32, left: usize, top: usize, right: usize, bottom: usize) {
    for y in top..bottom {
        for x in left..right {
            for channel in 0..3 {
                px[(y * w as usize + x) * 4 + channel] = 0;
            }
        }
    }
}

#[test]
fn reads_a_small_code() {
    let (w, h, px) = draw(&SMALL, 255);
    assert_eq!(reading(w, h, &px), Some("rqrr".to_string()));
}

#[test]
fn reads_a_code_of_digits() {
    let (w, h, px) = draw(&NUMBER, 0);
    assert_eq!(reading(w, h, &px), Some("1234567891011121314151617181920".to_string()));
}

#[test]
fn alpha_makes_no_difference() {
    let (w, h, opaque) = draw(&SMALL, 255);
    let (_, _, clear) = draw(&SMALL, 0);
    assert_eq!(reading(w, h, &opaque), reading(w, h, &clear));
}

#[test]
fn blank_selection_gives_nothing() {
    assert_eq!(reading(40, 30, &vec![255; 40 * 30 * 4]), None);
}

#[test]
fn damaged_code_gives_nothing() {
    let mut rows: Vec<String> = SMALL.iter().map(|r| r.to_string()).collect();
    for y in 9..21 {
        rows[y] = rows[y].chars().enumerate().map(|(x, c)| if x >= 8 { '0' } else { c }).collect();
    }
    let rows: Vec<&str> = rows.iter().map(|r| r.as_str()).collect();
    let (w, h, px) = draw(&rows, 255);
    assert_eq!(reading(w, h, &px), None);
}

#[test]
fn selection_below_the_minimum_gives_nothing() {
    let (w, h, px) = draw(&SMALL, 255);
    assert_eq!(reading(9, h, &px), None);
    assert_eq!(reading(w, 9, &px), None);
    assert_eq!(reading(-1, -1, &px), None);
}

#[test]
fn too_few_pixels_give_nothing() {
    let (w, h, mut px) = draw(&SMALL, 255);
    px.truncate(px.len() - 4);
    assert_eq!(reading(w, h, &px), None);
}

#[test]
fn surplus_pixels_are_ignored() {
    let (w, h, mut px) = draw(&SMALL, 255);
    px.extend_from_slice(&[0, 0, 0, 0, 0, 0]);
    assert_eq!(reading(w, h, &px), Some("rqrr".to_string()));
}

#[test]
fn first_text_wins() {
    let text = |s: &str| Some(s.to_string());
    assert_eq!(first_content(vec![]), None);
    assert_eq!(first_content(vec![None, None]), None);
    assert_eq!(first_content(vec![None, text("a"), None, text("b")]), text("a"));
}

#[test]
fn picture_needs_enough_pixels() {
    let (w, h, px) = draw(&SMALL, 255);
    assert!(gray_picture(w as u32, h as u32 + 1, &px).is_none());
    assert!(gray_picture(u32::MAX, u32::MAX, &px).is_none());
    let picture = gray_picture(w as u32, h as u32, &px).unwrap();
    let grids = find_grids(picture).ok().unwrap();
    assert_eq!(grids.len(), 1);
    assert_eq!(grids[0].size, 21);
    assert_eq!(grids[0].modules, grid(&SMALL).modules);
    assert_eq!(decode_qr(&grids), Some("rqrr".to_string()));
}

#[test]
fn empty_picture_holds_no_grid() {
    for width in [0, 5] {
        let grids = find_grids(gray_picture(width, 0, &vec![]).unwrap()).ok().unwrap();
        assert!(grids.is_empty());
    }
    assert!(find_grids(gray_picture(0, 5, &vec![]).unwrap()).is_err());
}

#[test]
fn first_decodable_grid_wins() {
    let blank = || Grid { size: 21, modules: vec![false; 21 * 21] };
    let tiny = || Grid { size: 9, modules: vec![true; 81] };
    assert_eq!(decode_qr(&vec![]), None);
    assert_eq!(decode_qr(&vec![blank(), tiny()]), None);
    assert_eq!(decode_qr(&vec![blank(), grid(&SMALL), grid(&NUMBER)]), Some("rqrr".to_string()));
    assert_eq!(
        decode_qr(&vec![grid(&NUMBER), grid(&SMALL)]),
        Some("1234567891011121314151617181920".to_string())
    );
}

#[test]
fn grids_have_one_mark_for_each_module() {
    assert!(grid(&SMALL).is_wf());
    assert!(Grid { size: 9, modules: vec![true; 81] }.is_wf());
    assert!(!Grid { size: 9, modules: vec![true; 80] }.is_wf());
    assert!(!Grid { size: 8, modules: vec![true; 64] }.is_wf());
    assert!(!Grid { size: usize::MAX, modules: vec![true] }.is_wf());
    assert!(grid(&SMALL).module(2, 8));
    assert!(!grid(&SMALL).module(8, 2));
}

#[test]
fn ring_with_a_spur_is_handed_back() {
    let (w, h, mut px) = draw(&SMALL, 255);
    assert_eq!(reading(w, h, &px), Some("rqrr".to_string()));
    let (left, top) = (MARGIN * SCALE, MARGIN * SCALE);
    blacken(&mut px, w, left + 10, top - 3, left + 14, top);
    match recognize_qr(w, h, &px) {
        Ok(_) => panic!("searched"),
        Err(picture) => {
            assert_eq!(picture.buffer.dimensions(), (w as u32, h as u32));
            assert_eq!(picture.buffer.as_raw()[0], 255);
            assert_eq!(picture.buffer.as_raw()[top * w as usize + left], 0);
        }
    }
}

#[test]
fn code_with_text_around_it_is_read() {
    let (w, h, mut px) = draw(&SMALL, 255);
    for x in (4..40).step_by(5) {
        blacken(&mut px, w, x, 5, x + 4, 6);
    }
    assert_eq!(reading(w, h, &px), Some("rqrr".to_string()));
}

#[test]
fn code_beside_a_frame_is_read() {
    let (w, h, mut px) = draw(&SMALL, 255);
    blacken(&mut px, w, 2, 2, 120, 3);
    blacken(&mut px, w, 2, 12, 120, 13);
    blacken(&mut px, w, 2, 2, 3, 13);
    blacken(&mut px, w, 119, 2, 120, 13);
    blacken(&mut px, w, 20, 6, 60, 9);
    assert_eq!(reading(w, h, &px), Some("rqrr".to_string()));
}

#[test]
fn turned_codes_are_read() {
    for turns in 1..4 {
        let mut rows: Vec<String> = NUMBER.iter().map(|row| row.to_string()).collect();
        for _ in 0..turns {
            let n = rows.len();
            rows = (0..n)
                .map(|y| (0..n).map(|x| rows[n - 1 - x].as_bytes()[y] as char).collect())
                .collect();
        }
        let rows: Vec<&str> = rows.iter().map(|row| row.as_str()).collect();
        let (w, h, px) = draw(&rows, 255);
        assert_eq!(reading(w, h, &px), Some("1234567891011121314151617181920".to_string()));
    }
}

#[test]
fn first_of_two_codes_is_read() {
    let (w, h, first) = draw(&SMALL, 255);
    let (_, _, second) = draw(&SMALL, 255);
    let row = w as usize * 4;
    let mut px = Vec::new();
    for y in 0..h as usize {
        px.extend_from_slice(&first[y * row..(y + 1) * row]);
        px.extend_from_slice(&second[y * row..(y + 1) * row]);
    }
    assert_eq!(reading(2 * w, h, &px), Some("rqrr".to_string()));
    let picture = gray_picture(2 * w as u32, h as u32, &px).unwrap();
    assert_eq!(find_grids(picture).ok().unwrap().len(), 2);
}

#[test]
fn wide_selections_are_searched() {
    assert_eq!(reading(9000, 10, &vec![255; 9000 * 10 * 4]), None);
    assert_eq!(reading(32767, 10, &vec![255; 32767 * 10 * 4]), None);
    assert!(recognize_qr(32768, 10, &vec![255; 32768 * 10 * 4]).is_err());
}
