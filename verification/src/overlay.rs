//! The marks that tell an archive's thumbnail from a plain picture: a
//! border in the colour of the format family, and a format label in the
//! bottom-right corner. Both are off by default.

use vstd::prelude::*;

use crate::archive::ContentKind;
use crate::canvas::{Canvas, Rgba};
use crate::rounding::{round_bits, SINGLE};
use crate::settings::Settings;
use crate::text::same_text;

verus! {

/// Shorter side below which a label could not be read.
pub const LABEL_MIN_PX: u32 = 48;

/// Format family, which decides the colour.
#[derive(Debug, Clone, Copy, PartialEq, Eq, Structural)]
pub enum FormatGroup {
    Archive,
    Ebook,
    /// A colour kept for formats that are neither.
    Other,
}

/// Colour of a format family.
pub open spec fn group_color(group: FormatGroup) -> Rgba {
    match group {
        FormatGroup::Archive => Rgba { r: 240, g: 195, b: 70, a: 255 },
        FormatGroup::Ebook => Rgba { r: 58, g: 124, b: 165, a: 255 },
        FormatGroup::Other => Rgba { r: 110, g: 110, b: 110, a: 255 },
    }
}

impl FormatGroup {
    /// Opaque colour of the border and of the label.
    pub fn color(self) -> (color: Rgba)
        ensures
            color == group_color(self),
    {
        match self {
            FormatGroup::Archive => Rgba { r: 240, g: 195, b: 70, a: 255 },
            FormatGroup::Ebook => Rgba { r: 58, g: 124, b: 165, a: 255 },
            FormatGroup::Other => Rgba { r: 110, g: 110, b: 110, a: 255 },
        }
    }
}

/// The family of a kind of archive.
pub open spec fn group_of(kind: ContentKind) -> FormatGroup {
    match kind {
        ContentKind::Epub | ContentKind::Fb2 | ContentKind::Mobi => FormatGroup::Ebook,
        _ => FormatGroup::Archive,
    }
}

/// The family of a kind of archive.
pub fn group_for(kind: ContentKind) -> (group: FormatGroup)
    ensures
        group == group_of(kind),
{
    match kind {
        ContentKind::Zip | ContentKind::SevenZ | ContentKind::Rar | ContentKind::Tar => {
            FormatGroup::Archive
        },
        ContentKind::Epub | ContentKind::Fb2 | ContentKind::Mobi => FormatGroup::Ebook,
    }
}

/// What stands in the corner.
pub enum LabelSlot {
    Text(String),
}

/// Extensions that files of a container format wear.
pub open spec fn container_exts(kind: ContentKind) -> Seq<Seq<char>> {
    match kind {
        ContentKind::Zip => seq!["zip"@, "cbz"@, "livp"@],
        ContentKind::SevenZ => seq!["7z"@, "cb7"@],
        ContentKind::Rar => seq!["rar"@, "cbr"@],
        ContentKind::Tar => seq!["tar"@, "cbt"@],
        _ => seq![],
    }
}

/// Label of a kind of archive whose extension says nothing more.
pub open spec fn generic_label(kind: ContentKind) -> Seq<char> {
    match kind {
        ContentKind::Zip => "ZIP"@,
        ContentKind::SevenZ => "7Z"@,
        ContentKind::Rar => "RAR"@,
        ContentKind::Tar => "TAR"@,
        ContentKind::Epub => "EPUB"@,
        ContentKind::Fb2 => "FB2"@,
        ContentKind::Mobi => "MOBI"@,
    }
}

/// The extension in capitals if it is an expected one, otherwise the
/// generic label.
pub open spec fn ext_or_default(
    ext: Option<Seq<char>>,
    allowed: Seq<Seq<char>>,
    default: Seq<char>,
) -> Seq<char> {
    match ext {
        Some(ext) => if allowed.contains(ext) {
            crate::text::upper(ext)
        } else {
            default
        },
        None => default,
    }
}

/// Label of an archive. Containers are labelled by their extension if it
/// is an expected one; for ebooks the content decides, save that Kindle
/// books keep the name of their variant.
pub open spec fn label_text(kind: ContentKind, ext: Option<Seq<char>>) -> Seq<char> {
    match kind {
        ContentKind::Mobi => if ext == Some("azw"@) {
            "AZW"@
        } else if ext == Some("azw3"@) {
            "AZW3"@
        } else {
            "MOBI"@
        },
        ContentKind::Epub | ContentKind::Fb2 => generic_label(kind),
        _ => ext_or_default(ext, container_exts(kind), generic_label(kind)),
    }
}

/// The characters of an optional text.
pub open spec fn ext_view(ext: Option<&str>) -> Option<Seq<char>> {
    match ext {
        Some(ext) => Some(ext@),
        None => None,
    }
}

/// The characters of each of these texts.
pub open spec fn views(texts: Seq<&str>) -> Seq<Seq<char>> {
    texts.map_values(|text: &str| text@)
}

/// The extension in capitals if it is one of the allowed ones, otherwise
/// `default`. A renamed file gets no odd label this way.
pub fn ext_label(file_ext: Option<&str>, allowed: &[&str], default: &str) -> (label: String)
    ensures
        label@ == ext_or_default(ext_view(file_ext), views(allowed@), default@),
{
    if let Some(ext) = file_ext {
        let mut k: usize = 0;
        while k < allowed.len()
            invariant
                k <= allowed.len(),
                file_ext == Some(ext),
                forall|i: int| 0 <= i < k ==> views(allowed@)[i] != ext@,
            decreases allowed.len() - k,
        {
            if same_text(ext, allowed[k]) {
                proof {
                    assert(views(allowed@)[k as int] == ext@);
                    assert(views(allowed@).contains(ext@));
                }
                return ext.to_ascii_uppercase();
            }
            k += 1;
        }
        proof {
            assert(!views(allowed@).contains(ext@));
        }
    }
    default.to_owned()
}

/// Picks the label of an archive. `file_ext` is the file's extension in
/// small letters and without the dot, if it is known.
pub fn label_for(kind: ContentKind, file_ext: Option<&str>) -> (label: LabelSlot)
    ensures
        label matches LabelSlot::Text(text) && text@ == label_text(kind, ext_view(file_ext)),
{
    let text = match kind {
        ContentKind::Epub => "EPUB".to_owned(),
        ContentKind::Fb2 => "FB2".to_owned(),
        ContentKind::Mobi => match file_ext {
            Some(ext) => {
                if same_text(ext, "azw") {
                    "AZW".to_owned()
                } else if same_text(ext, "azw3") {
                    "AZW3".to_owned()
                } else {
                    "MOBI".to_owned()
                }
            },
            None => "MOBI".to_owned(),
        },
        ContentKind::Zip => {
            let allowed: [&str; 3] = ["zip", "cbz", "livp"];
            proof {
                assert(views(allowed@) =~= container_exts(kind));
            }
            ext_label(file_ext, allowed.as_slice(), "ZIP")
        },
        ContentKind::SevenZ => {
            let allowed: [&str; 2] = ["7z", "cb7"];
            proof {
                assert(views(allowed@) =~= container_exts(kind));
            }
            ext_label(file_ext, allowed.as_slice(), "7Z")
        },
        ContentKind::Rar => {
            let allowed: [&str; 2] = ["rar", "cbr"];
            proof {
                assert(views(allowed@) =~= container_exts(kind));
            }
            ext_label(file_ext, allowed.as_slice(), "RAR")
        },
        ContentKind::Tar => {
            let allowed: [&str; 2] = ["tar", "cbt"];
            proof {
                assert(views(allowed@) =~= container_exts(kind));
            }
            ext_label(file_ext, allowed.as_slice(), "TAR")
        },
    };
    LabelSlot::Text(text)
}

/// Four hundredths in single precision are this many times two to the
/// minus 28.
pub open spec fn four_percent() -> int {
    10_737_418
}

/// Width of the border on a picture with this shorter side: four
/// percent of it in single precision, rounded with halfway cases going
/// up, and at least two pixels.
pub open spec fn border_width(min_dim: u32) -> int {
    let side = crate::rounding::rounded(min_dim as int, SINGLE as int);
    let product = crate::rounding::rounded(side * four_percent(), SINGLE as int);
    let pixels = (product + 0x800_0000) / 0x1000_0000;
    if pixels < 2 {
        2
    } else {
        pixels
    }
}

/// Width of the border on a picture with this shorter side.
pub fn border_thickness(min_dim: u32) -> (thickness: u32)
    ensures
        thickness == border_width(min_dim),
{
    proof {
        crate::rounding::rounding_error_is_small(min_dim as int, SINGLE as int);
    }
    let side: u128 = round_bits(min_dim as u128, SINGLE);
    proof {
        crate::rounding::rounding_error_is_small(side * four_percent(), SINGLE as int);
    }
    let product: u128 = round_bits(side * 10_737_418, SINGLE);
    let pixels: u32 = ((product + 0x800_0000) / 0x1000_0000) as u32;
    if pixels < 2 {
        2
    } else {
        pixels
    }
}

/// The border is about four percent of the shorter side: within half a
/// pixel, give or take a rounding error, unless the minimum applies.
pub proof fn border_is_four_percent(min_dim: u32)
    requires
        min_dim <= 0x1_0000,
    ensures
        border_width(min_dim) >= 2,
        border_width(min_dim) == 2 || -51 <= 100 * border_width(min_dim) - 4 * min_dim <= 51,
{
    let d = min_dim as int;
    crate::rounding::rounding_is_close(d, SINGLE as int);
    crate::rounding::rounding_is_close(d * four_percent(), SINGLE as int);
}

/// Does the pixel lie on a frame of width `t` around a picture?
pub open spec fn on_frame(width: int, height: int, t: int, x: int, y: int) -> bool {
    x < t || y < t || x >= width - t || y >= height - t
}

/// Width of the frame that is drawn: at most half of each side, rounded
/// up.
pub open spec fn frame_width(width: u32, height: u32, t: u32) -> int {
    let half_width = (width + 1) / 2;
    let half_height = (height + 1) / 2;
    let narrow = if t < half_width {
        t as int
    } else {
        half_width
    };
    if narrow < half_height {
        narrow
    } else {
        half_height
    }
}

/// Are the pixels of `after` those of `before` with a frame painted over
/// them?
pub open spec fn framed(before: Canvas, after: Canvas, color: Rgba, t: u32) -> bool {
    let frame = frame_width(before.width, before.height, t);
    &&& after.wf()
    &&& after.width == before.width
    &&& after.height == before.height
    &&& forall|x: int, y: int|
        before.inside(x, y) ==> #[trigger] after.pixel(x, y) == if on_frame(
            before.width as int,
            before.height as int,
            frame,
            x,
            y,
        ) {
            color
        } else {
            before.pixel(x, y)
        }
}

/// Paints a frame of width `t` around the picture's edges.
pub fn draw_border(img: &mut Canvas, color: Rgba, t: u32)
    requires
        old(img).wf(),
    ensures
        framed(*old(img), *final(img), color, t),
{
    let w: u32 = img.width;
    let h: u32 = img.height;
    let half_w: u32 = w / 2 + w % 2;
    let half_h: u32 = h / 2 + h % 2;
    let narrow: u32 = if t < half_w {
        t
    } else {
        half_w
    };
    let t: u32 = if narrow < half_h {
        narrow
    } else {
        half_h
    };
    let ghost before = *img;
    let mut y: u32 = 0;
    while y < h
        invariant
            y <= h,
            img.wf(),
            before.wf(),
            img.width == w,
            img.height == h,
            before.width == w,
            before.height == h,
            t <= w,
            t <= h,
            forall|i: int, j: int|
                before.inside(i, j) ==> #[trigger] img.pixel(i, j) == if j < y && on_frame(
                    w as int,
                    h as int,
                    t as int,
                    i,
                    j,
                ) {
                    color
                } else {
                    before.pixel(i, j)
                },
        decreases h - y,
    {
        let on_band = y < t || y >= h - t;
        let mut x: u32 = 0;
        while x < w
            invariant
                x <= w,
                y < h,
                img.wf(),
                before.wf(),
                img.width == w,
                img.height == h,
                before.width == w,
                before.height == h,
                t <= w,
                t <= h,
                on_band == (y < t || y >= h - t),
                forall|i: int, j: int|
                    before.inside(i, j) ==> #[trigger] img.pixel(i, j) == if (j < y || (j == y && i
                        < x)) && on_frame(w as int, h as int, t as int, i, j) {
                        color
                    } else {
                        before.pixel(i, j)
                    },
            decreases w - x,
        {
            if on_band || x < t || x >= w - t {
                img.put_pixel(x, y, color);
            }
            x += 1;
        }
        y += 1;
    }
}

/// Perceived brightness of a colour, in single precision, as a multiple
/// of two to the minus 27. The weights are those of ITU-R BT.601.
pub open spec fn brightness(color: Rgba) -> int {
    let red = crate::rounding::rounded(10_032_775 * color.r, SINGLE as int);
    let green = crate::rounding::rounded(9_848_226 * color.g, SINGLE as int);
    let blue = crate::rounding::rounded(15_300_821 * color.b, SINGLE as int);
    let sum = crate::rounding::rounded(4 * red + 8 * green, SINGLE as int);
    crate::rounding::rounded(sum + blue, SINGLE as int)
}

/// Black on bright colours, white on dark ones.
pub open spec fn text_color(background: Rgba) -> Rgba {
    if brightness(background) > 140 * 0x800_0000 {
        Rgba { r: 0, g: 0, b: 0, a: 255 }
    } else {
        Rgba { r: 255, g: 255, b: 255, a: 255 }
    }
}

/// Black or white, whichever reads better on this background.
pub fn pick_text_color(bg: Rgba) -> (color: Rgba)
    ensures
        color == text_color(bg),
{
    proof {
        crate::rounding::rounding_error_is_small(10_032_775 * bg.r, SINGLE as int);
        crate::rounding::rounding_error_is_small(9_848_226 * bg.g, SINGLE as int);
        crate::rounding::rounding_error_is_small(15_300_821 * bg.b, SINGLE as int);
    }
    let red: u128 = round_bits(10_032_775 * bg.r as u128, SINGLE);
    let green: u128 = round_bits(9_848_226 * bg.g as u128, SINGLE);
    let blue: u128 = round_bits(15_300_821 * bg.b as u128, SINGLE);
    proof {
        crate::rounding::rounding_error_is_small(4 * red + 8 * green, SINGLE as int);
    }
    let sum: u128 = round_bits(4 * red + 8 * green, SINGLE);
    let brightness: u128 = round_bits(sum + blue, SINGLE);
    if brightness > 140 * 0x800_0000 {
        Rgba { r: 0, g: 0, b: 0, a: 255 }
    } else {
        Rgba { r: 255, g: 255, b: 255, a: 255 }
    }
}

/// Place of the label's chip: from `(x, y)` up to, but without,
/// `(x_end, y_end)`.
#[derive(Debug, Clone, Copy, PartialEq, Eq, Structural)]
pub struct ChipPlace {
    pub x: u32,
    pub y: u32,
    pub x_end: u32,
    pub y_end: u32,
}

/// `side - chip - margin`, but not below zero.
pub open spec fn chip_start(side: u32, chip: u32, margin: u32) -> int {
    if side - chip - margin < 0 {
        0
    } else {
        side - chip - margin
    }
}

/// Places a chip of the given size in the bottom-right corner, at a
/// margin from the edges. A chip that does not fit is not drawn.
pub fn place_chip(w: u32, h: u32, chip_w: u32, chip_h: u32, margin: u32) -> (place: Option<
    ChipPlace,
>)
    ensures
        match place {
            Some(place) => {
                &&& chip_w < w && chip_h < h
                &&& place.x == chip_start(w, chip_w, margin)
                &&& place.y == chip_start(h, chip_h, margin)
                &&& place.x_end == place.x + chip_w <= w
                &&& place.y_end == place.y + chip_h <= h
            },
            None => chip_w >= w || chip_h >= h,
        },
        place matches Some(place) ==> {
            &&& chip_w + margin <= w ==> place.x_end + margin == w
            &&& chip_w + margin > w ==> place.x == 0
            &&& chip_h + margin <= h ==> place.y_end + margin == h
            &&& chip_h + margin > h ==> place.y == 0
        },
{
    if chip_w >= w || chip_h >= h {
        return None;
    }
    let x: u32 = (w - chip_w).saturating_sub(margin);
    let y: u32 = (h - chip_h).saturating_sub(margin);
    Some(ChipPlace { x, y, x_end: x + chip_w, y_end: y + chip_h })
}

/// A label that is to be drawn.
pub struct Label {
    pub text: String,
    pub color: Rgba,
    pub text_color: Rgba,
}

/// Does this picture get a border?
pub open spec fn wants_border(img: Canvas, settings: Settings) -> bool {
    settings.overlay_border && img.shorter_side() > 0
}

/// Does this picture get a label?
pub open spec fn wants_label(img: Canvas, settings: Settings) -> bool {
    settings.overlay_label && img.shorter_side() >= LABEL_MIN_PX
}

/// Marks a picture as the settings say: draws the border, and gives the
/// label that is to be drawn over it. Labels are dropped on pictures too
/// small for them.
pub fn apply_overlay(
    img: &mut Canvas,
    kind: ContentKind,
    file_ext: Option<&str>,
    settings: &Settings,
) -> (label: Option<Label>)
    requires
        old(img).wf(),
    ensures
        if wants_border(*old(img), *settings) {
            framed(
                *old(img),
                *final(img),
                group_color(group_of(kind)),
                border_width(old(img).shorter_side()) as u32,
            )
        } else {
            *final(img) == *old(img)
        },
        match label {
            Some(label) => {
                &&& wants_label(*old(img), *settings)
                &&& label.text@ == label_text(kind, ext_view(file_ext))
                &&& label.color == group_color(group_of(kind))
                &&& label.text_color == text_color(group_color(group_of(kind)))
            },
            None => !wants_label(*old(img), *settings),
        },
{
    if !settings.overlay_border && !settings.overlay_label {
        return None;
    }
    let color = group_for(kind).color();
    let min_dim: u32 = if img.width <= img.height {
        img.width
    } else {
        img.height
    };
    if min_dim == 0 {
        return None;
    }
    if settings.overlay_border {
        draw_border(img, color, border_thickness(min_dim));
    }
    if settings.overlay_label && min_dim >= LABEL_MIN_PX {
        match label_for(kind, file_ext) {
            LabelSlot::Text(text) => {
                let text_color = pick_text_color(color);
                Some(Label { text, color, text_color })
            },
        }
    } else {
        None
    }
}

/// With both marks off a picture stays as it is and gets no label,
/// whatever the archive.
pub proof fn marks_off_change_nothing(img: Canvas, settings: Settings)
    requires
        !settings.overlay_border,
        !settings.overlay_label,
    ensures
        !wants_border(img, settings),
        !wants_label(img, settings),
{
}

/// The two marks are independent: whether a border is drawn does not
/// depend on the label's switch, and the other way round. A picture too
/// small for a label still gets its border.
pub proof fn marks_are_independent(img: Canvas, settings: Settings, flag: bool)
    ensures
        wants_border(img, settings) == wants_border(
            img,
            Settings { overlay_label: flag, ..settings },
        ),
        wants_label(img, settings) == wants_label(
            img,
            Settings { overlay_border: flag, ..settings },
        ),
        0 < img.shorter_side() < LABEL_MIN_PX ==> !wants_label(img, settings) && wants_border(
            img,
            settings,
        ) == settings.overlay_border,
{
}

/// The colours of the families, and the family of each kind.
pub proof fn families_and_colours(kind: ContentKind)
    ensures
        group_of(kind) is Ebook <==> kind is Epub || kind is Fb2 || kind is Mobi,
        group_of(kind) is Archive <==> kind is Zip || kind is SevenZ || kind is Rar || kind is Tar,
        group_color(FormatGroup::Archive) == (Rgba { r: 240, g: 195, b: 70, a: 255 }),
        group_color(FormatGroup::Ebook) == (Rgba { r: 58, g: 124, b: 165, a: 255 }),
        group_color(FormatGroup::Other) == (Rgba { r: 110, g: 110, b: 110, a: 255 }),
{
}

/// An expected extension becomes the label, in capitals; every other one,
/// and none, gives the default.
pub proof fn expected_extensions_become_labels(
    ext: Seq<char>,
    allowed: Seq<Seq<char>>,
    default: Seq<char>,
    k: int,
)
    ensures
        0 <= k < allowed.len() && allowed[k] == ext ==> ext_or_default(Some(ext), allowed, default)
            == crate::text::upper(ext),
        (forall|i: int| 0 <= i < allowed.len() ==> #[trigger] allowed[i] != ext) ==> ext_or_default(
            Some(ext),
            allowed,
            default,
        ) == default,
        ext_or_default(None, allowed, default) == default,
{
}

/// The view of a text that may be missing, and of each text of a list.
pub proof fn texts_and_their_views(text: &str, texts: Seq<&str>, k: int)
    ensures
        ext_view(Some(text)) == Some(text@),
        ext_view(None) is None,
        views(texts).len() == texts.len(),
        0 <= k < texts.len() ==> views(texts)[k] == texts[k]@,
{
}

/// The labels. A container wears its own extension if that is one of its
/// kind, and otherwise the name of the kind; an ebook wears the name of
/// its format, a Kindle book that of its variant.
pub proof fn labels(kind: ContentKind, ext: Option<Seq<char>>)
    ensures
        kind is Epub ==> label_text(kind, ext) == "EPUB"@,
        kind is Fb2 ==> label_text(kind, ext) == "FB2"@,
        kind is Mobi ==> {
            &&& ext == Some("azw"@) ==> label_text(kind, ext) == "AZW"@
            &&& ext == Some("azw3"@) ==> label_text(kind, ext) == "AZW3"@
            &&& ext != Some("azw"@) && ext != Some("azw3"@) ==> label_text(kind, ext) == "MOBI"@
        },
        kind is Zip ==> {
            &&& ext == Some("cbz"@) ==> label_text(kind, ext) == "CBZ"@
            &&& ext == Some("livp"@) ==> label_text(kind, ext) == "LIVP"@
            &&& ext != Some("cbz"@) && ext != Some("livp"@) ==> label_text(kind, ext) == "ZIP"@
        },
        kind is SevenZ ==> {
            &&& ext == Some("cb7"@) ==> label_text(kind, ext) == "CB7"@
            &&& ext != Some("cb7"@) ==> label_text(kind, ext) == "7Z"@
        },
        kind is Rar ==> {
            &&& ext == Some("cbr"@) ==> label_text(kind, ext) == "CBR"@
            &&& ext != Some("cbr"@) ==> label_text(kind, ext) == "RAR"@
        },
        kind is Tar ==> {
            &&& ext == Some("cbt"@) ==> label_text(kind, ext) == "CBT"@
            &&& ext != Some("cbt"@) ==> label_text(kind, ext) == "TAR"@
        },
{
    lemma_capitals();
    let exts = container_exts(kind);
    if kind is Zip {
        assert(exts[0] == "zip"@ && exts[1] == "cbz"@ && exts[2] == "livp"@);
    } else if kind is SevenZ {
        assert(exts[0] == "7z"@ && exts[1] == "cb7"@);
    } else if kind is Rar {
        assert(exts[0] == "rar"@ && exts[1] == "cbr"@);
    } else if kind is Tar {
        assert(exts[0] == "tar"@ && exts[1] == "cbt"@);
    }
}

proof fn lemma_capitals()
    ensures
        crate::text::upper("zip"@) == "ZIP"@,
        crate::text::upper("cbz"@) == "CBZ"@,
        crate::text::upper("livp"@) == "LIVP"@,
        crate::text::upper("7z"@) == "7Z"@,
        crate::text::upper("cb7"@) == "CB7"@,
        crate::text::upper("rar"@) == "RAR"@,
        crate::text::upper("cbr"@) == "CBR"@,
        crate::text::upper("tar"@) == "TAR"@,
        crate::text::upper("cbt"@) == "CBT"@,
        "azw"@ != "azw3"@,
{
    reveal_strlit("zip");
    reveal_strlit("cbz");
    reveal_strlit("livp");
    reveal_strlit("7z");
    reveal_strlit("cb7");
    reveal_strlit("rar");
    reveal_strlit("cbr");
    reveal_strlit("tar");
    reveal_strlit("cbt");
    reveal_strlit("ZIP");
    reveal_strlit("CBZ");
    reveal_strlit("LIVP");
    reveal_strlit("7Z");
    reveal_strlit("CB7");
    reveal_strlit("RAR");
    reveal_strlit("CBR");
    reveal_strlit("TAR");
    reveal_strlit("CBT");
    reveal_strlit("azw");
    reveal_strlit("azw3");
    assert("azw"@.len() != "azw3"@.len());
    assert(crate::text::upper("zip"@) =~= "ZIP"@);
    assert(crate::text::upper("cbz"@) =~= "CBZ"@);
    assert(crate::text::upper("livp"@) =~= "LIVP"@);
    assert(crate::text::upper("7z"@) =~= "7Z"@);
    assert(crate::text::upper("cb7"@) =~= "CB7"@);
    assert(crate::text::upper("rar"@) =~= "RAR"@);
    assert(crate::text::upper("cbr"@) =~= "CBR"@);
    assert(crate::text::upper("tar"@) =~= "TAR"@);
    assert(crate::text::upper("cbt"@) =~= "CBT"@);
}

/// The border is four percent of the shorter side, whatever its length,
/// within half a pixel and a rounding error of a millionth, and never
/// less than two pixels.
pub proof fn border_grows_with_the_picture(min_dim: u32)
    ensures
        border_width(min_dim) >= 2,
        1_000_000 * (100 * border_width(min_dim)) >= 4_000_000 * min_dim - 51_000_000 - min_dim,
        border_width(min_dim) > 2 ==> 1_000_000 * (100 * border_width(min_dim)) <= 4_000_000
            * min_dim + 51_000_000 + min_dim,
{
    let d = min_dim as int;
    crate::rounding::rounding_is_close(d, SINGLE as int);
    let side = crate::rounding::rounded(d, SINGLE as int);
    crate::rounding::rounding_is_close(side * four_percent(), SINGLE as int);
}

/// A frame of width `t` covers exactly the pixels that are fewer than `t`
/// pixels away from an edge; all others stay, and so does the size.
pub proof fn frames_cover_the_edges(
    before: Canvas,
    after: Canvas,
    color: Rgba,
    t: u32,
    x: int,
    y: int,
)
    requires
        framed(before, after, color, t),
    ensures
        after.width == before.width,
        after.height == before.height,
        after.wf(),
        0 <= x < before.width && 0 <= y < before.height ==> {
            let near = x < t || y < t || before.width - 1 - x < t || before.height - 1 - y < t;
            &&& near ==> after.pixel(x, y) == color
            &&& !near ==> after.pixel(x, y) == before.pixel(x, y)
        },
{
    if 0 <= x < before.width && 0 <= y < before.height {
        assert(before.inside(x, y));
        assert(after.pixel(x, y) == after.pixel(x, y));
    }
}

/// Text is black on a background whose brightness, with the weights 0.299,
/// 0.587 and 0.114 of its colours, is more than 140, and white on darker
/// ones.
pub proof fn text_stands_out(background: Rgba)
    ensures
        ({
            let thousandths = 299 * background.r + 587 * background.g + 114 * background.b;
            &&& thousandths > 140_000 ==> text_color(background) == (Rgba {
                r: 0,
                g: 0,
                b: 0,
                a: 255,
            })
            &&& thousandths < 140_000 ==> text_color(background) == (Rgba {
                r: 255,
                g: 255,
                b: 255,
                a: 255,
            })
        }),
{
    let r = background.r as int;
    let g = background.g as int;
    let b = background.b as int;
    let red = crate::rounding::rounded(10_032_775 * r, SINGLE as int);
    let green = crate::rounding::rounded(9_848_226 * g, SINGLE as int);
    let blue = crate::rounding::rounded(15_300_821 * b, SINGLE as int);
    let sum = crate::rounding::rounded(4 * red + 8 * green, SINGLE as int);
    crate::rounding::rounding_is_close(10_032_775 * r, SINGLE as int);
    crate::rounding::rounding_is_close(9_848_226 * g, SINGLE as int);
    crate::rounding::rounding_is_close(15_300_821 * b, SINGLE as int);
    crate::rounding::rounding_is_close(4 * red + 8 * green, SINGLE as int);
    crate::rounding::rounding_is_close(sum + blue, SINGLE as int);
}

/// A border is drawn on every picture that has pixels, and a label on
/// every one with both sides of at least 48 pixels, if they are switched
/// on.
pub proof fn marks_by_size(img: Canvas, settings: Settings)
    ensures
        wants_border(img, settings) <==> settings.overlay_border && img.width > 0 && img.height > 0,
        wants_label(img, settings) <==> settings.overlay_label && img.width >= 48 && img.height
            >= 48,
{
}

} // verus!
