use qr_screen::qr::recognize_qr;

/// A small generator of pseudo-random numbers.
struct Dice(u64);

impl Dice {
    fn roll(&mut self, sides: usize) -> usize {
        self.0 = self.0.wrapping_mul(6364136223846793005).wrapping_add(1442695040888963407);
        ((self.0 >> 33) as usize) % sides
    }
}

fn fill(dark: &mut [bool], width: usize, left: usize, top: usize, w: usize, h: usize, to: bool) {
    for y in top..(top + h).min(dark.len() / width) {
        for x in left..(left + w).min(width) {
            dark[y * width + x] = to;
        }
    }
}

fn finder(dark: &mut [bool], width: usize, left: usize, top: usize, u: usize) {
    fill(dark, width, left.saturating_sub(1), top.saturating_sub(1), 7 * u + 2, 7 * u + 2, false);
    fill(dark, width, left, top, 7 * u, 7 * u, true);
    fill(dark, width, left + u, top + u, 5 * u, 5 * u, false);
    fill(dark, width, left + 2 * u, top + 2 * u, 3 * u, 3 * u, true);
}

/// Three finder patterns among noise, with and without an alignment square.
#[test]
fn searches_of_searched_pictures_end() {
    let mut dice = Dice(7);
    let mut searched = 0;
    for _ in 0..300 {
        let u = 1 + dice.roll(4);
        let span = 7 * u + 1 + dice.roll(25 * u);
        let side = 7 * u + span + dice.roll(12 * u) + 1;
        let (left, top) = (dice.roll(side - span - 7 * u + 1), dice.roll(side - span - 7 * u + 1));
        let mut dark = vec![false; side * side];
        let cell = [1, u, 2 * u][dice.roll(3)];
        let odds = 2 + dice.roll(4);
        let mut y = 0;
        while y < side {
            let mut x = 0;
            while x < side {
                if dice.roll(odds) == 0 {
                    fill(&mut dark, side, x, y, cell, cell, true);
                }
                x += cell;
            }
            y += cell;
        }
        finder(&mut dark, side, left, top, u);
        finder(&mut dark, side, left + span, top, u);
        finder(&mut dark, side, left, top + span, u);
        if dice.roll(3) > 0 {
            fill(&mut dark, side, left + span - 1, top + span - 1, u + 2, u + 2, false);
            fill(&mut dark, side, left + span, top + span, u, u, true);
        }
        let px: Vec<u8> = dark.iter().flat_map(|d| if *d { [0, 0, 0, 0] } else { [255, 255, 255, 0] }).collect();
        if recognize_qr(side as i32, side as i32, &px).is_ok() {
            searched += 1;
        }
    }
    assert!(searched > 150);
}
