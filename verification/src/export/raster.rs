//! Pictures as pixels: the report picture drawn and packed as a PNG file.

use std::sync::Arc;

use resvg::tiny_skia::Pixmap;
use resvg::usvg::fontdb::Database;
use resvg::usvg::{Options, Tree};
use vstd::prelude::*;

use crate::export;
use crate::export::page;
use crate::export::page::{ChartNumbers, Numbers};
use crate::export::panel;
use crate::export::panel::PanelView;
use crate::export::picture;
use crate::export::picture::session_picture;
use crate::storage::SessionStore;
use crate::text;

verus! {

/// Trusted: the font database of `fontdb`, as `usvg` takes it. Nothing is said of what it holds.
#[verifier::external_type_specification]
#[verifier::external_body]
pub struct ExDatabase(resvg::usvg::fontdb::Database);

/// Trusted: a parsed picture of `usvg`. What it holds is named `shapes`.
#[verifier::external_type_specification]
#[verifier::external_body]
pub struct ExTree(resvg::usvg::Tree);

/// Trusted: a pixmap of `tiny_skia`. What it holds is named `pixels`, and its width and height
/// `pixmap_size`.
#[verifier::external_type_specification]
#[verifier::external_body]
pub struct ExPixmap(resvg::tiny_skia::Pixmap);

/// The shapes that a parsed picture holds, written out.
pub uninterp spec fn shapes(tree: Tree) -> Seq<char>;

/// The bytes of a pixmap, four for each pixel.
pub uninterp spec fn pixels(pixmap: Pixmap) -> Seq<u8>;

/// The width and height of a pixmap.
pub uninterp spec fn pixmap_size(pixmap: Pixmap) -> (u32, u32);

/// What `usvg::Tree::from_str` reads in a picture, with default options but for the fonts: all
/// that it can come to with some fonts and, as the default options follow links to images, with
/// some files on disk; or its complaint.
pub uninterp spec fn svg_readings(svg: Seq<char>) -> Result<Set<Seq<char>>, Seq<char>>;

/// What `resvg::render` makes of the bytes of a pixmap of a width and height when it draws shapes
/// onto it: all that they can come to on some machine.
pub uninterp spec fn renderings(
    shapes: Seq<char>,
    width: u32,
    height: u32,
    pixels: Seq<u8>,
) -> Set<Seq<u8>>;

/// The PNG file into which `tiny_skia::Pixmap::encode_png` packs a pixmap of a width and height
/// with the given bytes, or its complaint.
pub uninterp spec fn png_of(width: u32, height: u32, pixels: Seq<u8>) -> Result<
    Seq<u8>,
    Seq<char>,
>;

/// Whether a picture opens with the tag of a size whose sides are at most `MAX_EXACT_SIDE`.
pub open spec fn opens_with(svg: Seq<char>, width: u32, height: u32) -> bool {
    &&& 1 <= width <= MAX_EXACT_SIDE
    &&& 1 <= height <= MAX_EXACT_SIDE
    &&& picture::root_tag(width as nat, height as nat).is_prefix_of(svg)
}

/// The largest side of a picture that is read exactly.
pub const MAX_EXACT_SIDE: u32 = 16_777_216;

/// Whether shapes are what some plain picture is read as.
pub open spec fn is_plain_reading(shapes: Seq<char>) -> bool {
    exists|svg: Seq<char>|
        picture::is_plain_picture(svg) && #[trigger] svg_readings(svg) is Ok && svg_readings(
            svg,
        )->Ok_0.contains(shapes)
}

/// Parses a picture and measures it.
///
/// Trusted: `usvg::Tree::from_str` with default options and the given fonts, `usvg::Tree::size`
/// and `Size::to_int_size`. Some pictures end the program, among them filters with numbers beyond
/// 32-bit floating point and letters nested without end, so only plain pictures may be parsed.
/// Whether parsing fails, and with what complaint, is a matter of the text alone; the shapes
/// follow the fonts too, which are opaque here, so they are said to be some reading of the text. The size is rounded to whole pixels, one at least each way. A picture
/// whose outermost tag gives width, height and the same view box in whole numbers has that size,
/// as long as they are exact as 32-bit floating-point numbers. Of other pictures nothing is said
/// of the size, which may follow the letters and so the fonts.
#[verifier::external_body]
fn parse_svg(svg: &str, fonts: &Arc<Database>) -> (r: Result<(Tree, u32, u32), String>)
    requires
        picture::is_plain_picture(svg@),
    ensures
        match r {
            Ok(parsed) => {
                &&& svg_readings(svg@) matches Ok(readings) && readings.contains(shapes(parsed.0))
                &&& parsed.1 >= 1 && parsed.2 >= 1
                &&& forall|width: u32, height: u32| #[trigger]
                    opens_with(svg@, width, height) ==> parsed.1 == width && parsed.2 == height
            },
            Err(complaint) => svg_readings(svg@) == Err::<Set<Seq<char>>, Seq<char>>(complaint@),
        },
{
    let options = Options { fontdb: Arc::clone(fonts), ..Options::default() };
    match Tree::from_str(svg, &options) {
        Ok(tree) => {
            let size = tree.size().to_int_size();
            Ok((tree, size.width(), size.height()))
        },
        Err(err) => Err(err.to_string()),
    }
}

/// The largest width of a pixmap.
pub const MAX_PIXMAP_WIDTH: u32 = 536_870_911;

/// The bytes of a pixmap on which nothing is drawn.
pub open spec fn blank(width: u32, height: u32) -> Seq<u8> {
    Seq::new((width * height * 4) as nat, |i: int| 0u8)
}

/// Makes a pixmap.
///
/// Trusted: `tiny_skia::Pixmap::new` gives none for a size of zero, nor for a width whose bytes
/// exceed a 32-bit number, and otherwise one of that size with all bytes zero. A pixmap whose
/// bytes exceed what a vector can hold would end the program, so it must not be asked for.
#[verifier::external_body]
fn new_pixmap(width: u32, height: u32) -> (r: Option<Pixmap>)
    requires
        width * height * 4 <= isize::MAX,
    ensures
        r.is_some() == (width >= 1 && width <= MAX_PIXMAP_WIDTH && height >= 1),
        r matches Some(pixmap) ==> {
            &&& pixmap_size(pixmap) == (width, height)
            &&& pixels(pixmap) == blank(width, height)
        },
{
    Pixmap::new(width, height)
}

/// Draws a parsed picture.
///
/// Trusted: `resvg::render` draws the shapes onto the pixels, at their own place and size, and
/// leaves the size of the pixmap. It computes with floating-point numbers as the machine does, so
/// the bytes are said to be some rendering of the shapes. A pixmap whose height exceeds a signed
/// 32-bit number would end the program, so it must not be drawn on; and only what was read in a
/// plain picture may be drawn.
#[verifier::external_body]
fn draw(tree: &Tree, pixmap: &mut Pixmap)
    requires
        is_plain_reading(shapes(*tree)),
        pixmap_size(*old(pixmap)).1 <= i32::MAX,
    ensures
        pixmap_size(*final(pixmap)) == pixmap_size(*old(pixmap)),
        renderings(
            shapes(*tree),
            pixmap_size(*old(pixmap)).0,
            pixmap_size(*old(pixmap)).1,
            pixels(*old(pixmap)),
        ).contains(pixels(*final(pixmap))),
{
    resvg::render(tree, resvg::tiny_skia::Transform::default(), &mut pixmap.as_mut());
}

/// The eight bytes with which every PNG file begins.
pub open spec fn png_signature() -> Seq<u8> {
    seq![137u8, 80u8, 78u8, 71u8, 13u8, 10u8, 26u8, 10u8]
}

/// Packs pixels as a PNG file.
///
/// Trusted: `tiny_skia::Pixmap::encode_png` packs the pixels, which is a matter of the pixmap
/// alone, or fails with a complaint. A file begins with the signature of PNG files.
#[verifier::external_body]
fn encode(pixmap: &Pixmap) -> (r: Result<Vec<u8>, String>)
    ensures
        match r {
            Ok(bytes) => {
                &&& png_of(pixmap_size(*pixmap).0, pixmap_size(*pixmap).1, pixels(*pixmap)) == Ok::<
                    Seq<u8>,
                    Seq<char>,
                >(bytes@)
                &&& png_signature().is_prefix_of(bytes@)
            },
            Err(complaint) => png_of(
                pixmap_size(*pixmap).0,
                pixmap_size(*pixmap).1,
                pixels(*pixmap),
            ) == Err::<Seq<u8>, Seq<char>>(complaint@),
        },
{
    match pixmap.encode_png() {
        Ok(bytes) => Ok(bytes),
        Err(err) => Err(err.to_string()),
    }
}

/// The message for a picture that does not parse.
pub open spec fn parse_failed_text(complaint: Seq<char>) -> Seq<char> {
    "failed to parse report svg: "@ + complaint
}

/// The message for a file that cannot be written.
pub open spec fn write_failed_text(path: Seq<char>, complaint: Seq<char>) -> Seq<char> {
    "failed to write png `"@ + path + "`: "@ + complaint
}

/// Whether a pixmap of a size can be had and drawn on.
pub open spec fn fits_pixmap(size: (u32, u32)) -> bool {
    1 <= size.0 <= MAX_PIXMAP_WIDTH && 1 <= size.1 <= i32::MAX && size.0 * size.1 * 4
        <= isize::MAX
}

/// The message for a file that cannot be written.
pub fn png_write_failure(path: &str, complaint: &str) -> (r: String)
    ensures
        r@ == write_failed_text(path@, complaint@),
{
    let mut message = String::from_str("failed to write png `");
    message.append(path);
    message.append("`: ");
    message.append(complaint);
    message
}

/// Whether `r` is what packing the bytes of a pixmap comes to, for a file at a path: a PNG file,
/// or a message of why there is none.
pub open spec fn is_file(
    r: Result<Vec<u8>, String>,
    size: (u32, u32),
    bytes: Seq<u8>,
    path: Seq<char>,
) -> bool {
    match r {
        Ok(file) => {
            &&& png_of(size.0, size.1, bytes) == Ok::<Seq<u8>, Seq<char>>(file@)
            &&& png_signature().is_prefix_of(file@)
        },
        Err(message) => png_of(size.0, size.1, bytes) matches Err(complaint) && message@
            == write_failed_text(path, complaint),
    }
}

/// Whether `r` is what drawing shapes in a size and packing them comes to, for a file at a path:
/// what packing a rendering of them on a blank pixmap comes to, or a message that there is no
/// pixmap.
pub open spec fn is_packed(
    r: Result<Vec<u8>, String>,
    shapes: Seq<char>,
    size: (u32, u32),
    path: Seq<char>,
) -> bool {
    if !fits_pixmap(size) {
        r matches Err(message) && message@ == "failed to allocate pixmap"@
    } else {
        exists|bytes: Seq<u8>| #[trigger]
            renderings(shapes, size.0, size.1, blank(size.0, size.1)).contains(bytes) && is_file(
                r,
                size,
                bytes,
                path,
            )
    }
}

/// Whether `r` is what drawing and packing a picture that is read as some shapes comes to, for a
/// file at a path: the shapes are drawn in the size that the picture has.
pub open spec fn is_drawn_reading(
    r: Result<Vec<u8>, String>,
    svg: Seq<char>,
    shapes: Seq<char>,
    path: Seq<char>,
) -> bool {
    exists|width: u32, height: u32|
        1 <= width && 1 <= height && #[trigger] is_packed(r, shapes, (width, height), path) && (
        forall|w: u32, h: u32| #[trigger]
            opens_with(svg, w, h) ==> width == w && height == h)
}

/// Whether `r` is what drawing a picture comes to, for a file at a path.
pub open spec fn is_drawing(r: Result<Vec<u8>, String>, svg: Seq<char>, path: Seq<char>) -> bool {
    match svg_readings(svg) {
        Err(complaint) => r matches Err(message) && message@ == parse_failed_text(complaint),
        Ok(readings) => exists|shapes: Seq<char>| #[trigger]
            readings.contains(shapes) && is_drawn_reading(r, svg, shapes, path),
    }
}

/// Draws a parsed picture in the given size and packs it as a PNG file. The path is that of the
/// file, for messages.
pub fn pack_tree(path: &str, tree: &Tree, width: u32, height: u32) -> (r: Result<Vec<u8>, String>)
    requires
        is_plain_reading(shapes(*tree)),
    ensures
        is_packed(r, shapes(*tree), (width, height), path@),
{
    assert(width * height <= 0xffff_ffff * 0xffff_ffff) by (nonlinear_arith)
        requires
            width <= 0xffff_ffff,
            height <= 0xffff_ffff,
    ;
    let bytes: u128 = (width as u128) * (height as u128) * 4;
    if bytes > isize::MAX as u128 || height > i32::MAX as u32 {
        return Err(String::from_str("failed to allocate pixmap"));
    }
    match new_pixmap(width, height) {
        None => Err(String::from_str("failed to allocate pixmap")),
        Some(pixmap) => {
            let mut pixmap = pixmap;
            draw(tree, &mut pixmap);
            assert(renderings(shapes(*tree), width, height, blank(width, height)).contains(
                pixels(pixmap),
            ));
            match encode(&pixmap) {
                Ok(bytes) => Ok(bytes),
                Err(complaint) => Err(png_write_failure(path, complaint.as_str())),
            }
        },
    }
}

/// Draws a picture and packs it as a PNG file. The path is that of the file, for messages.
pub fn rasterize_svg_to_png(path: &str, svg: &str, fonts: &Arc<Database>) -> (r: Result<
    Vec<u8>,
    String,
>)
    requires
        picture::is_plain_picture(svg@),
    ensures
        is_drawing(r, svg@, path@),
{
    match parse_svg(svg, fonts) {
        Err(complaint) => {
            let mut message = String::from_str("failed to parse report svg: ");
            message.append(complaint.as_str());
            Err(message)
        },
        Ok((tree, width, height)) => {
            assert(is_plain_reading(shapes(tree)));
            let r = pack_tree(path, &tree, width, height);
            assert(is_packed(r, shapes(tree), (width, height), path@));
            assert(is_drawn_reading(r, svg@, shapes(tree), path@));
            r
        },
    }
}

/// The report picture of a session is drawn in its full size, so that a pixmap for it can be had:
/// once it is parsed, the result is what packing a rendering of it in that size comes to.
pub proof fn law_report_pictures_fit(
    r: Result<Vec<u8>, String>,
    session: SessionStore,
    temperature: Seq<char>,
    numbers: Seq<Numbers>,
    path: Seq<char>,
)
    requires
        is_drawing(r, picture::picture(panel::panels(session, temperature), numbers), path),
        svg_readings(picture::picture(panel::panels(session, temperature), numbers)) is Ok,
    ensures
        exists|bytes: Seq<u8>| #[trigger] is_file(r, report_size(), bytes, path),
{
    lemma_picture_fits(r, panel::panels(session, temperature), numbers, path);
}

/// The size of a report picture.
pub open spec fn report_size() -> (u32, u32) {
    (picture::PICTURE_WIDTH as u32, 2220)
}

proof fn lemma_picture_fits(
    r: Result<Vec<u8>, String>,
    panels: Seq<PanelView>,
    numbers: Seq<Numbers>,
    path: Seq<char>,
)
    requires
        panels.len() == 5,
        is_drawing(r, picture::picture(panels, numbers), path),
        svg_readings(picture::picture(panels, numbers)) is Ok,
    ensures
        exists|bytes: Seq<u8>| #[trigger] is_file(r, report_size(), bytes, path),
{
    let svg = picture::picture(panels, numbers);
    let (w, h) = report_size();
    assert(picture::root_tag(w as nat, h as nat).is_prefix_of(svg));
    assert(opens_with(svg, w, h));
    let readings = svg_readings(svg)->Ok_0;
    let shapes = choose|shapes: Seq<char>| #[trigger]
        readings.contains(shapes) && is_drawn_reading(r, svg, shapes, path);
    let (width, height) = choose|width: u32, height: u32|
        1 <= width && 1 <= height && #[trigger] is_packed(r, shapes, (width, height), path) && (
        forall|w: u32, h: u32| #[trigger]
            opens_with(svg, w, h) ==> width == w && height == h);
    assert(width == w && height == h);
    assert(fits_pixmap((w, h)));
}

/// The contents of the report picture of a session as a PNG file, and the number of frames it
/// shows. The latest temperature and the numbers of the panels are given as they are to be
/// printed; the path is that of the file, for messages.
pub fn export_session_to_png(
    path: &str,
    session: &SessionStore,
    temperature: String,
    numbers: &Vec<ChartNumbers>,
    fonts: &Arc<Database>,
) -> (r: Result<(Vec<u8>, usize), String>)
    requires
        panel::fits_charts(*session),
        panel::is_printable(temperature@),
        page::all_fit(text::views(numbers@), panel::panels(*session, temperature@)),
    ensures
        is_drawing(
            match r {
                Ok(file) => Ok(file.0),
                Err(message) => Err(message),
            },
            picture::picture(panel::panels(*session, temperature@), text::views(numbers@)),
            path@,
        ),
        r matches Ok(file) ==> file.1 == export::all_frames(*session).len(),
{
    let svg = session_picture(session, temperature, numbers);
    match rasterize_svg_to_png(path, svg.as_str(), fonts) {
        Err(message) => Err(message),
        Ok(bytes) => {
            let frames = export::collect_frames(session);
            assert(frames@.unref().len() == frames@.len());
            Ok((bytes, frames.len()))
        },
    }
}

} // verus!
