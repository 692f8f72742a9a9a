//! The thumbnail provider: one object per file that gets a thumbnail.

use vstd::prelude::*;

use crate::archive::ContentKind;
use crate::canvas::{Canvas, Picture};
use crate::com::check_creation;
use crate::hresult::{E_FAIL, E_POINTER};
use crate::limits::{MAX_THUMBNAIL_SIZE, MIN_THUMBNAIL_SIZE};
use crate::overlay::{apply_overlay, Label};
use crate::settings::Settings;
use crate::text::{base_name_of, last_dot_of};

verus! {

/// What follows the last dot of a file name, in small letters; nothing
/// if there is no dot or nothing behind it. Dots in directory names do
/// not count.
pub open spec fn extension(name: Seq<char>) -> Option<Seq<char>> {
    let base = crate::text::base_name(name);
    match crate::text::last_dot(base) {
        Some(dot) => if dot + 1 < base.len() {
            Some(crate::text::lower(base.skip(dot + 1)))
        } else {
            None
        },
        None => None,
    }
}

/// The extension of a file name or path, in small letters and without
/// the dot.
pub fn extension_of(name: &str) -> (ext: Option<String>)
    ensures
        match ext {
            Some(ext) => extension(name@) == Some(ext@),
            None => extension(name@) is None,
        },
{
    let base = base_name_of(name);
    match last_dot_of(base) {
        Some(dot) => {
            let len: usize = base.unicode_len();
            if dot + 1 < len {
                let ext = base.substring_char(dot + 1, len);
                proof {
                    assert(ext@ =~= base@.skip(dot + 1));
                }
                Some(ext.to_ascii_lowercase())
            } else {
                None
            }
        },
        None => None,
    }
}

/// A size within the range that thumbnails are made in.
pub open spec fn clamped(cx: u32) -> u32 {
    if cx < MIN_THUMBNAIL_SIZE {
        MIN_THUMBNAIL_SIZE
    } else if cx > MAX_THUMBNAIL_SIZE {
        MAX_THUMBNAIL_SIZE
    } else {
        cx
    }
}

/// Brings a requested size into the range that thumbnails are made in.
pub fn clamp_thumbnail_size(cx: u32) -> (size: u32)
    ensures
        size == clamped(cx),
{
    if cx < MIN_THUMBNAIL_SIZE {
        MIN_THUMBNAIL_SIZE
    } else if cx > MAX_THUMBNAIL_SIZE {
        MAX_THUMBNAIL_SIZE
    } else {
        cx
    }
}

/// Every size is brought into the range, and those inside it stay.
pub proof fn clamping_is_idempotent(cx: u32)
    ensures
        MIN_THUMBNAIL_SIZE <= clamped(cx) <= MAX_THUMBNAIL_SIZE,
        MIN_THUMBNAIL_SIZE <= cx <= MAX_THUMBNAIL_SIZE ==> clamped(cx) == cx,
        clamped(clamped(cx)) == clamped(cx),
{
}

/// Creates thumbnail providers.
pub struct ArcThumbClassFactory;

impl ArcThumbClassFactory {
    /// Checks a request for a new provider. `aggregated` says that an
    /// outer object was given, which is not supported; the other flags
    /// say that the interface or the place for the result is null.
    pub fn create_instance(&self, aggregated: bool, no_interface: bool, no_result: bool) -> (
        status: Result<(), i32>)
        ensures
            status == crate::com::creation_status(aggregated, no_interface, no_result),
    {
        check_creation(aggregated, no_interface, no_result)
    }

    /// Locking the server has no effect and always succeeds.
    pub fn lock_server(&self, _lock: bool) -> (status: Result<(), i32>)
        ensures
            status is Ok,
    {
        Ok(())
    }
}

/// The state of a thumbnail provider. `S` is a stream over the file.
pub struct ArcThumbProvider<S> {
    pub stream: Option<S>,
}

impl<S> ArcThumbProvider<S> {
    /// A provider without a file.
    pub fn new() -> (provider: ArcThumbProvider<S>)
        ensures
            provider.stream is None,
    {
        ArcThumbProvider { stream: None }
    }

    /// Keeps the stream over the file.
    pub fn initialize(&mut self, stream: Option<S>)
        ensures
            final(self).stream == stream,
    {
        self.stream = stream;
    }

    /// Checks a request for a thumbnail of the given size: both results
    /// need a place, and there must be a stream. Gives the stream and
    /// the size of the thumbnail.
    pub fn begin_thumbnail(&self, cx: u32, no_bitmap: bool, no_alpha: bool) -> (begun: Result<
        (&S, u32),
        i32,
    >)
        ensures
            match begun {
                Ok((stream, size)) => {
                    &&& !no_bitmap && !no_alpha
                    &&& self.stream == Some(*stream)
                    &&& size == clamped(cx)
                },
                Err(code) => if no_bitmap || no_alpha {
                    code == E_POINTER
                } else {
                    self.stream is None && code == E_FAIL
                },
            },
    {
        if no_bitmap || no_alpha {
            return Err(E_POINTER);
        }
        let size: u32 = clamp_thumbnail_size(cx);
        match &self.stream {
            Some(stream) => Ok((stream, size)),
            None => Err(E_FAIL),
        }
    }
}

/// The status that the file manager gets: any failure to make a
/// thumbnail is an unspecified one, so that it shows its own icon.
pub fn thumbnail_status<B, E>(made: Result<B, E>) -> (status: Result<B, i32>)
    ensures
        status == (match made {
            Ok(bitmap) => Ok::<B, i32>(bitmap),
            Err(_) => Err(E_FAIL),
        }),
{
    match made {
        Ok(bitmap) => Ok(bitmap),
        Err(_) => Err(E_FAIL),
    }
}

/// Is `fitted` the picture after it was fitted into the thumbnail?
pub open spec fn fits_thumbnail(picture: Picture, fitted: Canvas, size: u32) -> bool {
    &&& fitted.wf()
    &&& fitted.width == crate::canvas::fitted_side(picture.width, picture.longer_side(), size)
    &&& fitted.height == crate::canvas::fitted_side(picture.height, picture.longer_side(), size)
    &&& fitted.pixels@ == crate::canvas::resampled(
        picture.width,
        picture.height,
        picture.samples.deep(),
        picture.samples.values(),
        size,
    )
}

/// Makes a thumbnail of a decoded cover: fits it into the size and marks
/// it as the settings say. Gives the thumbnail and the label that is to
/// be drawn over it.
pub fn compose_thumbnail(
    picture: Picture,
    size: u32,
    kind: ContentKind,
    file_ext: Option<&str>,
    settings: &Settings,
) -> (composed: (Canvas, Option<Label>))
    requires
        picture.resizable(),
        1 <= size <= MAX_THUMBNAIL_SIZE,
    ensures
        exists|fitted: Canvas| #[trigger]
            fits_thumbnail(picture, fitted, size) && {
                &&& if crate::overlay::wants_border(fitted, *settings) {
                    crate::overlay::framed(
                        fitted,
                        composed.0,
                        crate::overlay::group_color(crate::overlay::group_of(kind)),
                        crate::overlay::border_width(fitted.shorter_side()) as u32,
                    )
                } else {
                    composed.0 == fitted
                }
                &&& match composed.1 {
                    Some(label) => {
                        &&& crate::overlay::wants_label(fitted, *settings)
                        &&& label.text@ == crate::overlay::label_text(
                            kind,
                            crate::overlay::ext_view(file_ext),
                        )
                        &&& label.color == crate::overlay::group_color(
                            crate::overlay::group_of(kind),
                        )
                        &&& label.text_color == crate::overlay::text_color(label.color)
                    },
                    None => !crate::overlay::wants_label(fitted, *settings),
                }
            },
{
    let mut fitted = picture.fit_within(size);
    proof {
        assert(fits_thumbnail(picture, fitted, size));
    }
    let label = apply_overlay(&mut fitted, kind, file_ext, settings);
    (fitted, label)
}

/// The extension is what follows the last dot of the last component, in
/// small letters; dots in the directory or further in front do not count,
/// and a name that ends with its last dot, or has none, has no extension.
pub proof fn extension_follows_the_last_dot(dir: Seq<char>, head: Seq<char>, ext: Seq<char>)
    requires
        dir.len() == 0 || dir.last() == '/' || dir.last() == '\\',
        forall|k: int| 0 <= k < head.len() ==> (#[trigger] head[k]) != '/' && head[k] != '\\',
        forall|k: int|
            0 <= k < ext.len() ==> (#[trigger] ext[k]) != '/' && ext[k] != '\\' && ext[k] != '.',
    ensures
        ext.len() > 0 ==> extension(dir + (head + seq!['.'] + ext)) == Some(
            crate::text::lower(ext),
        ),
        ext.len() == 0 ==> extension(dir + (head + seq!['.'] + ext)) is None,
        extension(dir + ext) is None,
{
    let name = head + seq!['.'] + ext;
    assert forall|k: int| 0 <= k < name.len() implies (#[trigger] name[k]) != '/' && name[k]
        != '\\' by {
        if k < head.len() {
            assert(name[k] == head[k]);
        } else if k > head.len() {
            assert(name[k] == ext[k - head.len() - 1]);
        }
    }
    crate::text::last_component_follows_the_directory(dir, name);
    crate::text::last_component_follows_the_directory(dir, ext);
    crate::text::last_dot_separates(head, ext);
    assert(name.skip(head.len() as int + 1) =~= ext);
}

/// Sizes below sixteen pixels are raised to it, sizes above the largest
/// thumbnail are lowered to it, and all others stay.
pub proof fn sizes_are_clamped(cx: u32)
    ensures
        cx <= 16 ==> clamped(cx) == 16,
        16 <= cx <= 2560 ==> clamped(cx) == cx,
        cx >= 2560 ==> clamped(cx) == 2560,
{
}

/// A cover fills the thumbnail: its longer side gets the size that was
/// asked for, and the other one at most that.
pub proof fn covers_fill_the_thumbnail(picture: Picture, fitted: Canvas, size: u32)
    requires
        picture.resizable(),
        1 <= size <= MAX_THUMBNAIL_SIZE,
        fits_thumbnail(picture, fitted, size),
    ensures
        fitted.pixels@.len() == 4 * (fitted.width * fitted.height),
        1 <= fitted.width <= size,
        1 <= fitted.height <= size,
        picture.width >= picture.height ==> fitted.width == size,
        picture.height >= picture.width ==> fitted.height == size,
        fitted.width > 1 && picture.height >= picture.width ==> 2000 * (fitted.width
            * picture.height) <= 2000 * (picture.width * size) + 1002 * picture.height,
        picture.height >= picture.width ==> 2000 * (fitted.width * picture.height) > 2000 * (
        picture.width * size) - 1002 * picture.height,
        fitted.height > 1 && picture.width >= picture.height ==> 2000 * (fitted.height
            * picture.width) <= 2000 * (picture.height * size) + 1002 * picture.width,
        picture.width >= picture.height ==> 2000 * (fitted.height * picture.width) > 2000 * (
        picture.height * size) - 1002 * picture.width,
        fitted.pixels@ == crate::canvas::resampled(
            picture.width,
            picture.height,
            picture.samples is Sixteen,
            picture.samples.values(),
            size,
        ),
{
    crate::canvas::fitting_scales_to_the_square(picture.width, picture.longer_side(), size);
    crate::canvas::fitting_scales_to_the_square(picture.height, picture.longer_side(), size);
}

} // verus!
