//! Searching a captured part of the screen for a QR code.
use crate::overlay::MIN_SELECTION;
use crate::pixels::{gray_levels, grayscale};
use crate::raster::{lemma_index, Mask, Raster};
use crate::search::{is_searchable, searchable, MAX_HEIGHT, MAX_WIDTH};
use rqrr::BitGrid;
use vstd::prelude::*;

verus! {

/// A grayscale picture: an `image::GrayImage`.
#[verifier::external_body]
pub struct GrayImage {
    pub buffer: image::GrayImage,
}

/// The width and the height of a picture.
pub uninterp spec fn image_size(picture: GrayImage) -> (u32, u32);

/// The gray levels that a picture holds, row by row.
pub uninterp spec fn image_levels(picture: GrayImage) -> Seq<u8>;

/// Calls `image::GrayImage::from_raw`, which takes over a buffer of gray levels
/// as a picture of the given size, and refuses one that is too short for it.
#[verifier::external_body]
fn image_from_raw(width: u32, height: u32, levels: Vec<u8>) -> (picture: Option<GrayImage>)
    ensures
        picture is Some <==> width * height <= levels@.len(),
        picture matches Some(p) ==> image_size(p) == (width, height) && image_levels(p) == levels@,
{
    image::GrayImage::from_raw(width, height, levels).map(|buffer| GrayImage { buffer })
}

/// Calls `image::GrayImage::dimensions`, which gives the size of a picture.
#[verifier::external_body]
fn image_dimensions(picture: &GrayImage) -> (size: (u32, u32))
    ensures
        size == image_size(*picture),
{
    picture.buffer.dimensions()
}

/// A picture that was made black and white for the search: an
/// `rqrr::PreparedImage` as it was prepared.
#[verifier::external_body]
pub struct PreparedImage {
    image: rqrr::PreparedImage<image::GrayImage>,
}

/// The width and the height of a prepared image.
pub uninterp spec fn prepared_size(prepared: PreparedImage) -> (u32, u32);

/// Which pixels of a prepared image are dark, row by row.
pub uninterp spec fn prepared_dark(prepared: PreparedImage) -> Seq<bool>;

/// The black-and-white picture that a prepared image holds.
pub open spec fn prepared_mask(prepared: PreparedImage) -> Mask {
    picture_mask(prepared_size(prepared).0, prepared_size(prepared).1, prepared_dark(prepared))
}

/// A black-and-white picture of the given size.
pub open spec fn picture_mask(width: u32, height: u32, dark: Seq<bool>) -> Mask {
    Mask { width: width as int, height: height as int, dark }
}

/// Which pixels `rqrr` takes for dark in a picture of the given size with the
/// given gray levels, row by row.
pub uninterp spec fn binarized(width: u32, height: u32, levels: Seq<u8>) -> Seq<bool>;

/// Calls `rqrr::PreparedImage::prepare` on a copy, which compares each gray level with a
/// running average of those around it. The averages are kept in `usize`; up to
/// this width they fit in 32 bits.
#[verifier::external_body]
fn prepare(picture: &GrayImage) -> (prepared: PreparedImage)
    requires
        image_size(*picture).0 <= MAX_WIDTH,
    ensures
        prepared_size(prepared) == image_size(*picture),
        prepared_dark(prepared) == binarized(
            image_size(*picture).0,
            image_size(*picture).1,
            image_levels(*picture),
        ),
        prepared_dark(prepared).len() == image_size(*picture).0 * image_size(*picture).1,
{
    PreparedImage { image: rqrr::PreparedImage::prepare(picture.buffer.clone()) }
}

/// Calls `rqrr::PreparedImage::get_pixel_at`, which gives the colour of a pixel.
/// In an image as it was prepared that is black, whose number is 1, or white.
#[verifier::external_body]
fn prepared_pixel(prepared: &PreparedImage, x: usize, y: usize) -> (dark: bool)
    requires
        x < prepared_size(*prepared).0,
        y < prepared_size(*prepared).1,
    ensures
        dark == prepared_dark(*prepared)[y * prepared_size(*prepared).0 + x],
{
    prepared.image.get_pixel_at(x, y) == 1u8
}

/// A square of black and white modules, row by row; `true` is black.
pub struct Grid {
    pub size: usize,
    pub modules: Vec<bool>,
}

impl Grid {
    /// There is one mark for each module, and room for the format bits.
    pub open spec fn wf(self) -> bool {
        self.size >= 9 && self.modules@.len() == self.size * self.size
    }

    /// Tells whether there is one mark for each module, and room for the format
    /// bits.
    pub fn is_wf(&self) -> (yes: bool)
        ensures
            yes == self.wf(),
    {
        let area: Option<usize> = self.size.checked_mul(self.size);
        assert(self.modules.len() == self.modules@.len());
        match area {
            Some(area) => self.size >= 9 && self.modules.len() == area,
            None => false,
        }
    }

    /// The module in a column and a row.
    pub fn module(&self, x: usize, y: usize) -> (black: bool)
        requires
            self.wf(),
            x < self.size,
            y < self.size,
        ensures
            black == self.modules@[y * self.size + x],
    {
        proof {
            lemma_index(self.size as int, self.size as int, x as int, y as int);
            assert(self.modules.len() == self.modules@.len());
        }
        self.modules[y * self.size + x]
    }
}

/// The modules of each grid in a list.
pub open spec fn grid_modules(grids: Seq<Grid>) -> Seq<Seq<bool>> {
    Seq::new(grids.len(), |i: int| grids[i].modules@)
}

/// The modules of each grid that `rqrr` finds in a black-and-white picture, in
/// the order in which it finds them.
pub uninterp spec fn detected_grids(width: u32, height: u32, dark: Seq<bool>) -> Seq<Seq<bool>>;

/// Calls `rqrr::PreparedImage::detect_grids`, and copies the modules of each grid
/// that was found out of the picture. A grid has at least 17 modules a side.
///
/// The search asserts that its perspective maps stay finite and convex, and that
/// it crosses a timing pattern, and it multiplies coordinates in `i32` and pixel
/// counts in `usize`. In a searchable picture
/// - every ring that it takes for a finder pattern is a square frame, whose
///   corners it finds exactly, so the map of a finder pattern is affine;
/// - three that it takes for a code, by the directions and distances between
///   their centres, are of one size and exactly in a row and a column, and the
///   scan between two of the frames crosses the light pixels around them;
/// - the fourth corner is where the outer sides of the frames meet, or the corner
///   of the isolated square there, which the search tries first and which has
///   the size that it expects; the map of the code is affine as well, and stays
///   so while its coefficients are scaled;
/// - the coordinates of finder patterns fit in 15 bits, so their products of two
///   fit in an `i32` and those of three are exact in a double; a product of two
///   sides of a finder pattern with a coordinate fits in an `i32`, and a hundred
///   times a pixel count in 32 bits.
#[verifier::external_body]
fn detect_grids(prepared: PreparedImage) -> (grids: Vec<Grid>)
    requires
        searchable(prepared_mask(prepared)),
    ensures
        grid_modules(grids@) == detected_grids(
            prepared_size(prepared).0,
            prepared_size(prepared).1,
            prepared_dark(prepared),
        ),
        forall|i: int| 0 <= i < grids@.len() ==> (#[trigger] grids@[i]).wf(),
{
    let mut image = prepared.image;
    let mut grids = Vec::new();
    for found in image.detect_grids() {
        let size = found.grid.size();
        let places = (0..size).flat_map(|y| (0..size).map(move |x| (x, y)));
        grids.push(Grid { size, modules: places.map(|(x, y)| found.grid.bit(y, x)).collect() });
    }
    grids
}

/// The text that `rqrr` decodes from a grid with the given modules, or `None`
/// where it reports an error.
pub uninterp spec fn decoded_text(modules: Seq<bool>) -> Option<Seq<char>>;

/// Calls `rqrr::Grid::decode` on a `rqrr::SimpleGrid`, which corrects and decodes
/// its modules. It reads the format bits around the corner at row and column 8
/// before it looks at the size, so a grid has at least 9 modules a side. The
/// reason of a failure is dropped.
#[verifier::external_body]
fn decode_grid(grid: &Grid) -> (text: Option<String>)
    requires
        grid.wf(),
    ensures
        content_view(text) == decoded_text(grid.modules@),
{
    let modules = rqrr::SimpleGrid::from_func(grid.size, |x, y| grid.module(x, y));
    rqrr::Grid::new(modules).decode().ok().map(|decoded| decoded.1)
}

/// The characters of a text, if there is one.
pub open spec fn content_view(content: Option<String>) -> Option<Seq<char>> {
    match content {
        Some(text) => Some(text@),
        None => None,
    }
}

/// The first text among the outcomes of decoding.
pub open spec fn first_text(outcomes: Seq<Option<Seq<char>>>) -> Option<Seq<char>>
    decreases outcomes.len(),
{
    if outcomes.len() == 0 {
        None
    } else if outcomes[0] is Some {
        outcomes[0]
    } else {
        first_text(outcomes.drop_first())
    }
}

/// The outcomes that a list holds.
pub open spec fn outcome_views(outcomes: Seq<Option<String>>) -> Seq<Option<Seq<char>>> {
    Seq::new(outcomes.len(), |i: int| content_view(outcomes[i]))
}

/// What decoding gives for each of some grids.
pub open spec fn decoded(grids: Seq<Seq<bool>>) -> Seq<Option<Seq<char>>> {
    Seq::new(grids.len(), |i: int| decoded_text(grids[i]))
}

/// Whether the search is made on a picture of the given size with the given gray
/// levels.
pub open spec fn is_searched(width: u32, height: u32, levels: Seq<u8>) -> bool {
    searchable(picture_mask(width, height, binarized(width, height, levels)))
}

/// The modules of each grid in a picture of the given size with the given gray
/// levels.
pub open spec fn picture_grids(width: u32, height: u32, levels: Seq<u8>) -> Seq<Seq<bool>> {
    detected_grids(width, height, binarized(width, height, levels))
}

/// What became of a selection.
pub enum Outcome {
    /// It was read, and holds this text, if any.
    Read(Option<Seq<char>>),
    /// A picture of this size with these gray levels is yet to be searched.
    Unsearched { width: u32, height: u32, levels: Seq<u8> },
}

/// What became of a selection, with a text or a picture by what it holds.
pub open spec fn outcome_of(reading: Result<Option<String>, GrayImage>) -> Outcome {
    match reading {
        Ok(content) => Outcome::Read(content_view(content)),
        Err(picture) => Outcome::Unsearched {
            width: image_size(picture).0,
            height: image_size(picture).1,
            levels: image_levels(picture),
        },
    }
}

/// What becomes of the pixels of a selection. A selection that is too small, or
/// has too few pixels for its size, holds no text.
pub open spec fn recognized(width: i32, height: i32, px: Seq<u8>) -> Outcome {
    let (w, h, levels) = (width as u32, height as u32, gray_levels(px));
    if width < MIN_SELECTION || height < MIN_SELECTION || width * height > px.len() / 4 {
        Outcome::Read(None)
    } else if is_searched(w, h, levels) {
        Outcome::Read(first_text(decoded(picture_grids(w, h, levels))))
    } else {
        Outcome::Unsearched { width: w, height: h, levels }
    }
}

/// Picks the first text among the outcomes of decoding.
pub fn first_content(outcomes: Vec<Option<String>>) -> (content: Option<String>)
    ensures
        content_view(content) == first_text(outcome_views(outcomes@)),
{
    let ghost all = outcome_views(outcomes@);
    let mut i: usize = 0;
    assert(all.skip(0) =~= all);
    while i < outcomes.len()
        invariant
            i <= outcomes@.len(),
            all == outcome_views(outcomes@),
            first_text(all) == first_text(all.skip(i as int)),
        decreases outcomes.len() - i,
    {
        assert(all.skip(i as int)[0] == all[i as int]);
        assert(all.skip(i as int).drop_first() =~= all.skip(i as int + 1));
        if let Some(text) = &outcomes[i] {
            return Some(text.clone());
        }
        i = i + 1;
    }
    None
}

/// Copies the black-and-white picture out of a prepared image.
fn raster_of(prepared: &PreparedImage, width: u32, height: u32) -> (raster: Raster)
    requires
        prepared_size(*prepared) == (width, height),
        prepared_dark(*prepared).len() == width * height,
    ensures
        raster.well_formed(),
        raster@ == prepared_mask(*prepared),
{
    let ghost all = prepared_dark(*prepared);
    let mut dark: Vec<bool> = Vec::new();
    let mut y: u32 = 0;
    while y < height
        invariant
            all == prepared_dark(*prepared),
            prepared_size(*prepared) == (width, height),
            all.len() == width * height,
            y <= height,
            dark@ == all.take(y * width),
        decreases height - y,
    {
        let mut x: u32 = 0;
        proof {
            lemma_row(width as int, height as int, y as int);
        }
        while x < width
            invariant
                all == prepared_dark(*prepared),
                prepared_size(*prepared) == (width, height),
                all.len() == width * height,
                y < height,
                x <= width,
                0 <= y * width,
                y * width + width <= width * height,
                dark@ == all.take(y * width + x),
            decreases width - x,
        {
            dark.push(prepared_pixel(prepared, x as usize, y as usize));
            x = x + 1;
            assert(dark@ =~= all.take(y * width + x));
        }
        assert((y + 1) * width == y * width + width) by (nonlinear_arith);
        y = y + 1;
    }
    assert(height * width == width * height) by (nonlinear_arith);
    assert(dark@ =~= all);
    Raster { width: width as usize, height: height as usize, dark }
}

/// A row lies within its picture.
proof fn lemma_row(width: int, height: int, y: int)
    requires
        0 <= width,
        0 <= y < height,
    ensures
        0 <= y * width,
        y * width + width <= width * height,
{
    assert(0 <= y * width && y * width + width <= width * height) by (nonlinear_arith)
        requires
            0 <= width,
            0 <= y < height,
    ;
}

/// Decodes grids in order and returns the first text.
pub fn decode_qr(grids: &Vec<Grid>) -> (content: Option<String>)
    requires
        forall|i: int| 0 <= i < grids@.len() ==> (#[trigger] grids@[i]).wf(),
    ensures
        content_view(content) == first_text(decoded(grid_modules(grids@))),
{
    let ghost expected = decoded(grid_modules(grids@));
    let mut outcomes: Vec<Option<String>> = Vec::new();
    let mut found: bool = false;
    while outcomes.len() < grids.len() && !found
        invariant
            outcomes@.len() <= grids@.len(),
            expected == decoded(grid_modules(grids@)),
            forall|i: int| 0 <= i < grids@.len() ==> (#[trigger] grids@[i]).wf(),
            outcome_views(outcomes@) == expected.take(outcomes@.len() as int),
            found ==> outcomes@.len() > 0 && expected[outcomes@.len() - 1] is Some,
        decreases grids@.len() - outcomes@.len(),
    {
        let outcome: Option<String> = decode_grid(&grids[outcomes.len()]);
        found = outcome.is_some();
        outcomes.push(outcome);
        assert(outcome_views(outcomes@) =~= expected.take(outcomes@.len() as int));
    }
    proof {
        lemma_first_text_of_prefix(expected, outcomes@.len() as int);
    }
    first_content(outcomes)
}

/// What comes after the first text does not matter.
proof fn lemma_first_text_of_prefix(outcomes: Seq<Option<Seq<char>>>, n: int)
    requires
        0 <= n <= outcomes.len(),
        n == outcomes.len() || (n > 0 && outcomes[n - 1] is Some),
    ensures
        first_text(outcomes.take(n)) == first_text(outcomes),
    decreases outcomes.len(),
{
    if n == outcomes.len() {
        assert(outcomes.take(n) =~= outcomes);
    } else if outcomes[0] is None {
        assert(outcomes.take(n).drop_first() =~= outcomes.drop_first().take(n - 1));
        lemma_first_text_of_prefix(outcomes.drop_first(), n - 1);
    }
}

/// Finds the grids in a picture, or hands it back where it is not searched.
pub fn find_grids(picture: GrayImage) -> (found: Result<Vec<Grid>, GrayImage>)
    ensures
        match found {
            Ok(grids) => {
                &&& is_searched(image_size(picture).0, image_size(picture).1, image_levels(picture))
                &&& grid_modules(grids@) == picture_grids(
                    image_size(picture).0,
                    image_size(picture).1,
                    image_levels(picture),
                )
                &&& forall|i: int| 0 <= i < grids@.len() ==> (#[trigger] grids@[i]).wf()
            },
            Err(same) => {
                &&& !is_searched(image_size(picture).0, image_size(picture).1, image_levels(picture))
                &&& same == picture
            },
        },
{
    let (width, height): (u32, u32) = image_dimensions(&picture);
    if width as usize > MAX_WIDTH || height as usize > MAX_HEIGHT {
        return Err(picture);
    }
    let prepared: PreparedImage = prepare(&picture);
    let raster: Raster = raster_of(&prepared, width, height);
    if is_searchable(&raster) {
        Ok(detect_grids(prepared))
    } else {
        Err(picture)
    }
}

/// Converts the BGRA pixels of a selection to a grayscale picture of the given
/// size, if there are enough of them.
pub fn gray_picture(width: u32, height: u32, px: &Vec<u8>) -> (picture: Option<GrayImage>)
    ensures
        picture is Some <==> width * height <= px@.len() / 4,
        picture matches Some(p) ==> image_size(p) == (width, height) && image_levels(p)
            == gray_levels(px@),
{
    let gray: Vec<u8> = grayscale(px);
    image_from_raw(width, height, gray)
}

/// Reads the text of a QR code from the BGRA pixels of a selection, or hands the
/// picture over where the search is not made here. The grids in that picture are
/// then to be decoded by `decode_qr`.
pub fn recognize_qr(width: i32, height: i32, px: &Vec<u8>) -> (reading: Result<
    Option<String>,
    GrayImage,
>)
    ensures
        outcome_of(reading) == recognized(width, height, px@),
{
    if width < MIN_SELECTION || height < MIN_SELECTION {
        return Ok(None);
    }
    match gray_picture(width as u32, height as u32, px) {
        Some(picture) => match find_grids(picture) {
            Ok(grids) => Ok(decode_qr(&grids)),
            Err(picture) => Err(picture),
        },
        None => Ok(None),
    }
}

/// The first text is an outcome before which no grid could be decoded; there is
/// none exactly where no grid could be decoded.
pub proof fn law_first_text(outcomes: Seq<Option<Seq<char>>>)
    ensures
        first_text(outcomes) is None <==> forall|i: int|
            0 <= i < outcomes.len() ==> #[trigger] outcomes[i] is None,
        first_text(outcomes) is Some ==> exists|i: int|
            0 <= i < outcomes.len() && #[trigger] outcomes[i] == first_text(outcomes) && forall|j: int|
                0 <= j < i ==> #[trigger] outcomes[j] is None,
    decreases outcomes.len(),
{
    if outcomes.len() > 0 && outcomes[0] is None {
        let rest = outcomes.drop_first();
        law_first_text(rest);
        if first_text(rest) is Some {
            let i = choose|i: int|
                0 <= i < rest.len() && #[trigger] rest[i] == first_text(rest) && forall|j: int|
                    0 <= j < i ==> #[trigger] rest[j] is None;
            assert(outcomes[i + 1] == first_text(outcomes));
            assert forall|j: int| 0 <= j < i + 1 implies #[trigger] outcomes[j] is None by {
                if j > 0 {
                    assert(rest[j - 1] is None);
                }
            }
        } else {
            assert forall|i: int| 0 <= i < outcomes.len() implies #[trigger] outcomes[i] is None by {
                if i > 0 {
                    assert(rest[i - 1] is None);
                }
            }
        }
    }
}

/// The first grid that can be decoded gives the text: those before it are
/// skipped, and those after it do not matter. Where no grid can be decoded, or
/// there is none, there is no text.
pub proof fn law_first_decodable_grid(grids: Seq<Seq<bool>>, k: int)
    requires
        0 <= k <= grids.len(),
        forall|j: int| 0 <= j < k ==> decoded_text(#[trigger] grids[j]) is None,
    ensures
        k < grids.len() && decoded_text(grids[k]) is Some ==> first_text(decoded(grids)) == decoded_text(
            grids[k],
        ),
        k == grids.len() ==> first_text(decoded(grids)) is None,
    decreases k,
{
    if k > 0 {
        assert(decoded(grids).drop_first() =~= decoded(grids.drop_first()));
        assert(decoded(grids)[0] == decoded_text(grids[0]));
        law_first_decodable_grid(grids.drop_first(), k - 1);
    }
}

/// The alpha byte of a pixel, and pixels that are alike in gray, make no
/// difference to what becomes of a selection.
pub proof fn law_only_gray_levels_matter(width: i32, height: i32, a: Seq<u8>, b: Seq<u8>)
    requires
        gray_levels(a) == gray_levels(b),
    ensures
        recognized(width, height, a) == recognized(width, height, b),
{
    assert(gray_levels(a).len() == a.len() / 4);
    assert(gray_levels(b).len() == b.len() / 4);
}

/// A selection of at least 10 by 10 pixels that are all there is searched, or
/// handed over with its gray levels where the search is not made here; if it is
/// searched, the first grid that can be decoded gives the text. Nothing is read
/// only from a smaller selection, from too few pixels, or where no grid can be
/// decoded.
pub proof fn law_recognition(width: i32, height: i32, px: Seq<u8>, k: int)
    ensures
        ({
            let small = width < 10 || height < 10;
            let (w, h, levels) = (width as u32, height as u32, gray_levels(px));
            let dark = binarized(w, h, levels);
            let searched = searchable(Mask { width: width as int, height: height as int, dark });
            let grids = detected_grids(w, h, dark);
            let outcome = recognized(width, height, px);
            &&& small || 4 * (width * height) > px.len() ==> outcome == Outcome::Read(None)
            &&& !small && 4 * (width * height) <= px.len() && !searched ==> outcome
                == (Outcome::Unsearched { width: w, height: h, levels })
            &&& !small && 4 * (width * height) <= px.len() && searched ==> {
                &&& outcome is Read
                &&& 0 <= k < grids.len() && decoded_text(grids[k]) is Some && (forall|j: int|
                    0 <= j < k ==> decoded_text(#[trigger] grids[j]) is None) ==> outcome == Outcome::Read(
                    decoded_text(grids[k]),
                )
                &&& outcome == Outcome::Read(None) <==> forall|j: int|
                    0 <= j < grids.len() ==> decoded_text(#[trigger] grids[j]) is None
            }
        }),
{
    let (w, h, levels) = (width as u32, height as u32, gray_levels(px));
    let grids = detected_grids(w, h, binarized(w, h, levels));
    law_first_text(decoded(grids));
    assert forall|j: int| 0 <= j < grids.len() implies #[trigger] decoded(grids)[j] == decoded_text(
        grids[j],
    ) by {}
    if width >= 10 && height >= 10 {
        assert(width * height >= 0) by (nonlinear_arith)
            requires
                width >= 10,
                height >= 10,
        ;
    }
    if 0 <= k < grids.len() && decoded_text(grids[k]) is Some && (forall|j: int|
        0 <= j < k ==> decoded_text(#[trigger] grids[j]) is None) {
        law_first_decodable_grid(grids, k);
    }
    if forall|j: int| 0 <= j < grids.len() ==> decoded_text(#[trigger] grids[j]) is None {
        law_first_decodable_grid(grids, grids.len() as int);
    } else {
        let j = choose|j: int| 0 <= j < grids.len() && decoded_text(#[trigger] grids[j]) is Some;
        assert(decoded(grids)[j] is Some);
    }
}

/// Of a list of grids the first that can be decoded gives the text; where none
/// can be, there is none.
pub proof fn law_decoding_of_grids(grids: Seq<Grid>, k: int)
    requires
        0 <= k <= grids.len(),
        forall|j: int| 0 <= j < k ==> decoded_text((#[trigger] grids[j]).modules@) is None,
    ensures
        k < grids.len() && decoded_text(grids[k].modules@) is Some ==> first_text(
            decoded(grid_modules(grids)),
        ) == decoded_text(grids[k].modules@),
        k == grids.len() ==> first_text(decoded(grid_modules(grids))) is None,
{
    assert forall|j: int| 0 <= j < k implies decoded_text(#[trigger] grid_modules(grids)[j]) is None by {
        assert(grid_modules(grids)[j] == grids[j].modules@);
    }
    law_first_decodable_grid(grid_modules(grids), k);
}

/// The search is made on the picture that `rqrr` makes black and white, and finds
/// what it finds in that.
pub proof fn law_picture_is_binarized(width: u32, height: u32, levels: Seq<u8>)
    ensures
        ({
            let dark = binarized(width, height, levels);
            &&& is_searched(width, height, levels) == searchable(
                Mask { width: width as int, height: height as int, dark },
            )
            &&& picture_grids(width, height, levels) == detected_grids(width, height, dark)
        }),
{
}

/// A reading, a list of outcomes and a grid are seen as what they hold.
pub proof fn law_qr_views(text: String, picture: GrayImage, outcomes: Seq<Option<String>>, grid: Grid, i: int)
    ensures
        content_view(Some(text)) == Some(text@),
        content_view(None) == None::<Seq<char>>,
        outcome_of(Ok(Some(text))) == Outcome::Read(Some(text@)),
        outcome_of(Ok(None)) == Outcome::Read(None),
        outcome_of(Err(picture)) == (Outcome::Unsearched {
            width: image_size(picture).0,
            height: image_size(picture).1,
            levels: image_levels(picture),
        }),
        outcome_views(outcomes).len() == outcomes.len(),
        0 <= i < outcomes.len() ==> outcome_views(outcomes)[i] == content_view(outcomes[i]),
        grid.wf() <==> grid.size >= 9 && grid.modules@.len() == grid.size * grid.size,
{
}

}
