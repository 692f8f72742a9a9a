//! User settings: which image of an archive becomes its thumbnail, and
//! how the thumbnail is marked.
//!
//! Settings are stored as a handful of named values, all of them
//! optional; what is missing or malformed falls back to the defaults.
//!
//! ```text
//!     SortOrder         string  "natural" | "alphabetical"
//!     CoverMode         string  "ignore" | "prefer" | "only"
//!     EnabledImageExts  number  bitmask over SUPPORTED_IMAGE_EXTS
//!     OverlayBorder     number  0 | 1
//!     OverlayLabel      number  0 | 1
//! ```

use vstd::prelude::*;

use std::cmp::Ordering;

use crate::natural::natural_cmp;
use crate::text::{base_name_of, last_dot_of, same_text};

verus! {

/// How image files within an archive are ordered before the "first" one
/// is picked.
#[derive(Debug, Default, Clone, Copy, PartialEq, Eq, Structural)]
pub enum SortOrder {
    /// By bytes: `page10.jpg` comes before `page2.jpg`.
    Alphabetical,
    /// Runs of digits as numbers: `page2.jpg` comes before
    /// `page10.jpg`.
    #[default]
    Natural,
}

/// How images with the name of a cover are treated.
#[derive(Debug, Default, Clone, Copy, PartialEq, Eq, Structural)]
pub enum CoverMode {
    /// Like any other image.
    Ignore,
    /// Preferred; without one, the first image is taken.
    #[default]
    Prefer,
    /// The only ones to be taken: without one there is no thumbnail.
    Only,
}

/// The order that a stored text stands for, if any.
pub open spec fn sort_order_of(text: Seq<char>) -> Option<SortOrder> {
    let text = crate::text::lower(text);
    if text == "alphabetical"@ || text == "alpha"@ {
        Some(SortOrder::Alphabetical)
    } else if text == "natural"@ || text == "nat"@ {
        Some(SortOrder::Natural)
    } else {
        None
    }
}

/// The mode that a stored text stands for, if any.
pub open spec fn cover_mode_of(text: Seq<char>) -> Option<CoverMode> {
    let text = crate::text::lower(text);
    if text == "ignore"@ {
        Some(CoverMode::Ignore)
    } else if text == "prefer"@ {
        Some(CoverMode::Prefer)
    } else if text == "only"@ {
        Some(CoverMode::Only)
    } else {
        None
    }
}

proof fn lemma_registry_words()
    ensures
        "alphabetical"@ != "natural"@,
        "alphabetical"@ != "nat"@,
        "alpha"@ != "natural"@,
        "ignore"@ != "prefer"@,
        "ignore"@ != "only"@,
        "prefer"@ != "only"@,
        crate::text::lower("alphabetical"@) == "alphabetical"@,
        crate::text::lower("natural"@) == "natural"@,
        crate::text::lower("ignore"@) == "ignore"@,
        crate::text::lower("prefer"@) == "prefer"@,
        crate::text::lower("only"@) == "only"@,
{
    reveal_strlit("alphabetical");
    reveal_strlit("alpha");
    reveal_strlit("natural");
    reveal_strlit("nat");
    reveal_strlit("ignore");
    reveal_strlit("prefer");
    reveal_strlit("only");
    assert("ignore"@[0] != "prefer"@[0]);
    assert("alpha"@.len() != "natural"@.len());
    assert("alphabetical"@.len() != "natural"@.len());
    assert(crate::text::lower("alphabetical"@) =~= "alphabetical"@);
    assert(crate::text::lower("natural"@) =~= "natural"@);
    assert(crate::text::lower("ignore"@) =~= "ignore"@);
    assert(crate::text::lower("prefer"@) =~= "prefer"@);
    assert(crate::text::lower("only"@) =~= "only"@);
}

impl SortOrder {
    /// The text by which this order is stored.
    pub open spec fn spec_registry_value(self) -> &'static str {
        match self {
            SortOrder::Alphabetical => "alphabetical",
            SortOrder::Natural => "natural",
        }
    }

    /// Parses a stored text, without regard to case.
    pub fn from_registry_value(s: &str) -> (order: Option<SortOrder>)
        ensures
            order == sort_order_of(s@),
    {
        let text = s.to_ascii_lowercase();
        if same_text(text.as_str(), "alphabetical") || same_text(text.as_str(), "alpha") {
            Some(SortOrder::Alphabetical)
        } else if same_text(text.as_str(), "natural") || same_text(text.as_str(), "nat") {
            Some(SortOrder::Natural)
        } else {
            None
        }
    }

    /// The text by which this order is stored.
    pub fn as_registry_value(self) -> (text: &'static str)
        ensures
            text@ == self.spec_registry_value()@,
            sort_order_of(text@) == Some(self),
    {
        proof {
            lemma_registry_words();
        }
        match self {
            SortOrder::Alphabetical => "alphabetical",
            SortOrder::Natural => "natural",
        }
    }
}

impl CoverMode {
    /// The text by which this mode is stored.
    pub open spec fn spec_registry_value(self) -> &'static str {
        match self {
            CoverMode::Ignore => "ignore",
            CoverMode::Prefer => "prefer",
            CoverMode::Only => "only",
        }
    }

    /// Parses a stored text, without regard to case.
    pub fn from_registry_value(s: &str) -> (mode: Option<CoverMode>)
        ensures
            mode == cover_mode_of(s@),
    {
        let text = s.to_ascii_lowercase();
        if same_text(text.as_str(), "ignore") {
            Some(CoverMode::Ignore)
        } else if same_text(text.as_str(), "prefer") {
            Some(CoverMode::Prefer)
        } else if same_text(text.as_str(), "only") {
            Some(CoverMode::Only)
        } else {
            None
        }
    }

    /// The text by which this mode is stored.
    pub fn as_registry_value(self) -> (text: &'static str)
        ensures
            text@ == self.spec_registry_value()@,
            cover_mode_of(text@) == Some(self),
    {
        proof {
            lemma_registry_words();
        }
        match self {
            CoverMode::Ignore => "ignore",
            CoverMode::Prefer => "prefer",
            CoverMode::Only => "only",
        }
    }
}

/// What is written is read back: each order and each mode is parsed from
/// its own text.
pub proof fn registry_texts_round_trip(order: SortOrder, mode: CoverMode)
    ensures
        sort_order_of(order.spec_registry_value()@) == Some(order),
        cover_mode_of(mode.spec_registry_value()@) == Some(mode),
{
    lemma_registry_words();
}

/// Image extensions that can be decoded. Bit `i` of a stored mask refers
/// to index `i`, so entries are only ever appended.
pub const SUPPORTED_IMAGE_EXTS: [&'static str; 11] = [
    ".jpg",
    ".jpeg",
    ".png",
    ".gif",
    ".bmp",
    ".tiff",
    ".tif",
    ".webp",
    ".ico",
    ".heic",
    ".heif",
];

/// The mask with the bit of every supported extension.
pub open spec fn full_mask() -> u32 {
    0x7ff
}

/// The mask with the bit of every supported extension.
pub fn default_enabled_image_exts_mask() -> (mask: u32)
    ensures
        mask == full_mask(),
{
    0x7ff
}

/// Is bit `i` of the mask set?
pub open spec fn bit_set(mask: u32, i: int) -> bool {
    mask & (1u32 << (i as u32)) != 0
}

/// The full mask has exactly one bit for each supported extension.
pub proof fn full_mask_covers_supported_extensions(i: int)
    requires
        0 <= i < 32,
    ensures
        bit_set(full_mask(), i) <==> i < SUPPORTED_IMAGE_EXTS@.len(),
{
    let n = i as u32;
    assert((0x7ffu32 & (1u32 << n) != 0) == (n < 11)) by (bit_vector)
        requires
            n < 32,
    ;
}

#[derive(Debug, Clone, Copy, PartialEq, Eq, Structural)]
pub struct Settings {
    pub sort_order: SortOrder,
    pub cover_mode: CoverMode,
    /// Bit `i` says that the extension at index `i` of
    /// [`SUPPORTED_IMAGE_EXTS`] is eligible as a thumbnail source;
    /// higher bits are ignored.
    pub enabled_image_exts_mask: u32,
    /// Mark thumbnails with a border in the colour of the format family.
    pub overlay_border: bool,
    /// Mark thumbnails with a format label.
    pub overlay_label: bool,
}

/// The settings of a fresh installation.
pub open spec fn default_settings() -> Settings {
    Settings {
        sort_order: SortOrder::Natural,
        cover_mode: CoverMode::Prefer,
        enabled_image_exts_mask: full_mask(),
        overlay_border: false,
        overlay_label: false,
    }
}

impl Default for Settings {
    fn default() -> (settings: Settings)
        ensures
            settings == default_settings(),
    {
        Settings {
            sort_order: SortOrder::Natural,
            cover_mode: CoverMode::Prefer,
            enabled_image_exts_mask: default_enabled_image_exts_mask(),
            overlay_border: false,
            overlay_label: false,
        }
    }
}

/// The stored values, each `None` if it is missing or of another type.
pub struct RegistryValues {
    pub sort_order: Option<String>,
    pub cover_mode: Option<String>,
    /// Written by early versions in place of the cover mode.
    pub prefer_cover_names: Option<u32>,
    pub enabled_image_exts: Option<u32>,
    pub overlay_border: Option<u32>,
    pub overlay_label: Option<u32>,
}

/// The stored order; the default if it is missing or malformed.
pub open spec fn loaded_order(values: RegistryValues) -> SortOrder {
    match values.sort_order {
        Some(text) => match sort_order_of(text@) {
            Some(order) => order,
            None => SortOrder::Natural,
        },
        None => SortOrder::Natural,
    }
}

/// The mode that the early value stands for; the default without it.
pub open spec fn legacy_mode(values: RegistryValues) -> CoverMode {
    match values.prefer_cover_names {
        Some(flag) => if flag != 0 {
            CoverMode::Prefer
        } else {
            CoverMode::Ignore
        },
        None => CoverMode::Prefer,
    }
}

/// The stored mode; the early value counts if it is missing or
/// malformed.
pub open spec fn loaded_mode(values: RegistryValues) -> CoverMode {
    match values.cover_mode {
        Some(text) => match cover_mode_of(text@) {
            Some(mode) => mode,
            None => legacy_mode(values),
        },
        None => legacy_mode(values),
    }
}

/// The stored mask without bits that mean nothing.
pub open spec fn loaded_mask(values: RegistryValues) -> u32 {
    match values.enabled_image_exts {
        Some(mask) => mask & full_mask(),
        None => full_mask(),
    }
}

/// A stored flag: anything but zero counts as set.
pub open spec fn loaded_flag(value: Option<u32>) -> bool {
    match value {
        Some(flag) => flag != 0,
        None => false,
    }
}

/// The settings that stored values stand for.
pub open spec fn loaded(values: RegistryValues) -> Settings {
    Settings {
        sort_order: loaded_order(values),
        cover_mode: loaded_mode(values),
        enabled_image_exts_mask: loaded_mask(values),
        overlay_border: loaded_flag(values.overlay_border),
        overlay_label: loaded_flag(values.overlay_label),
    }
}

fn flag_of(value: Option<u32>) -> (flag: bool)
    ensures
        flag == loaded_flag(value),
{
    match value {
        Some(flag) => flag != 0,
        None => false,
    }
}

impl Settings {
    /// The settings that stored values stand for; the defaults if there
    /// is no store at all.
    pub fn load_from_values(values: Option<&RegistryValues>) -> (settings: Settings)
        ensures
            settings == (match values {
                Some(values) => loaded(*values),
                None => default_settings(),
            }),
    {
        let mut out = Settings::default();
        let values = match values {
            Some(values) => values,
            None => return out,
        };
        if let Some(text) = &values.sort_order {
            if let Some(order) = SortOrder::from_registry_value(text.as_str()) {
                out.sort_order = order;
            }
        }
        let stored_mode = match &values.cover_mode {
            Some(text) => CoverMode::from_registry_value(text.as_str()),
            None => None,
        };
        if let Some(mode) = stored_mode {
            out.cover_mode = mode;
        } else if let Some(flag) = values.prefer_cover_names {
            out.cover_mode = if flag != 0 {
                CoverMode::Prefer
            } else {
                CoverMode::Ignore
            };
        }
        if let Some(mask) = values.enabled_image_exts {
            out.enabled_image_exts_mask = mask & default_enabled_image_exts_mask();
        }
        out.overlay_border = flag_of(values.overlay_border);
        out.overlay_label = flag_of(values.overlay_label);
        out
    }

    /// Does the store hold these settings? The early value is left as it
    /// was.
    pub open spec fn saved_as(self, old: RegistryValues, new: RegistryValues) -> bool {
        &&& new.sort_order matches Some(text) && text@ == self.sort_order.spec_registry_value()@
        &&& new.cover_mode matches Some(text) && text@ == self.cover_mode.spec_registry_value()@
        &&& new.prefer_cover_names == old.prefer_cover_names
        &&& new.enabled_image_exts == Some(self.enabled_image_exts_mask & full_mask())
        &&& new.overlay_border == Some(
            if self.overlay_border {
                1u32
            } else {
                0u32
            },
        )
        &&& new.overlay_label == Some(
            if self.overlay_label {
                1u32
            } else {
                0u32
            },
        )
    }

    /// Writes every setting to the store.
    pub fn save_to_values(&self, values: &mut RegistryValues)
        ensures
            self.saved_as(*old(values), *final(values)),
    {
        values.sort_order = Some(self.sort_order.as_registry_value().to_owned());
        values.cover_mode = Some(self.cover_mode.as_registry_value().to_owned());
        values.enabled_image_exts = Some(
            self.enabled_image_exts_mask & default_enabled_image_exts_mask(),
        );
        values.overlay_border = Some(
            if self.overlay_border {
                1
            } else {
                0
            },
        );
        values.overlay_label = Some(
            if self.overlay_label {
                1
            } else {
                0
            },
        );
    }
}

/// Loading gives back what was saved, whatever the store held before;
/// only bits of the mask that mean nothing are lost.
pub proof fn saved_settings_are_loaded(
    settings: Settings,
    before: RegistryValues,
    after: RegistryValues,
)
    requires
        settings.saved_as(before, after),
    ensures
        loaded(after) == (Settings {
            enabled_image_exts_mask: settings.enabled_image_exts_mask & full_mask(),
            ..settings
        }),
        settings.enabled_image_exts_mask <= full_mask() ==> loaded(after) == settings,
{
    registry_texts_round_trip(settings.sort_order, settings.cover_mode);
    let mask = settings.enabled_image_exts_mask;
    assert((mask & 0x7ff) & 0x7ff == mask & 0x7ff) by (bit_vector);
    if mask <= full_mask() {
        assert(mask & 0x7ff == mask) by (bit_vector)
            requires
                mask <= 0x7ff,
        ;
    }
}

/// Does `s` end with `suffix`, ASCII letters compared without regard to
/// case?
pub open spec fn has_suffix(s: Seq<u8>, suffix: Seq<u8>) -> bool {
    &&& suffix.len() <= s.len()
    &&& forall|k: int|
        0 <= k < suffix.len() ==> crate::natural::lower_byte(
            #[trigger] s[s.len() - suffix.len() + k],
        ) == crate::natural::lower_byte(suffix[k])
}

fn lower_byte_of(b: u8) -> (lowered: u8)
    ensures
        lowered == crate::natural::lower_byte(b),
{
    if 0x41 <= b && b <= 0x5a {
        b + 0x20
    } else {
        b
    }
}

/// Suffix test that compares the bytes of ASCII letters without regard
/// to case and all others exactly.
pub fn ends_with_ignore_ascii_case(s: &str, suffix: &str) -> (ends: bool)
    ensures
        ends == has_suffix(vstd::utf8::encode_utf8(s@), vstd::utf8::encode_utf8(suffix@)),
{
    let bytes = s.as_bytes();
    let tail = suffix.as_bytes();
    if bytes.len() < tail.len() {
        return false;
    }
    let from: usize = bytes.len() - tail.len();
    let mut k: usize = 0;
    while k < tail.len()
        invariant
            k <= tail.len(),
            from + tail.len() == bytes.len(),
            bytes@ == vstd::utf8::encode_utf8(s@),
            tail@ == vstd::utf8::encode_utf8(suffix@),
            forall|i: int|
                0 <= i < k ==> crate::natural::lower_byte(#[trigger] bytes@[from + i])
                    == crate::natural::lower_byte(tail@[i]),
        decreases tail.len() - k,
    {
        if lower_byte_of(bytes[from + k]) != lower_byte_of(tail[k]) {
            proof {
                assert(bytes@[bytes@.len() - tail@.len() + k] == bytes@[from + k]);
            }
            return false;
        }
        k += 1;
    }
    true
}

impl Settings {
    /// Is the supported extension at index `i` enabled, and does `name`
    /// end with it?
    pub open spec fn accepts_by(self, name: Seq<char>, i: int) -> bool {
        &&& 0 <= i < SUPPORTED_IMAGE_EXTS@.len()
        &&& bit_set(self.enabled_image_exts_mask, i)
        &&& has_suffix(
            vstd::utf8::encode_utf8(name),
            vstd::utf8::encode_utf8(SUPPORTED_IMAGE_EXTS@[i]@),
        )
    }

    /// Is `name` an image that may become a thumbnail?
    pub open spec fn accepts(self, name: Seq<char>) -> bool {
        exists|i: int| self.accepts_by(name, i)
    }

    /// Is `name` an image that may become a thumbnail: does it end with
    /// an enabled extension, whatever the case of its letters?
    pub fn accepts_image_ext(&self, name: &str) -> (accepted: bool)
        ensures
            accepted == self.accepts(name@),
    {
        let mut i: usize = 0;
        while i < 11
            invariant
                i <= 11,
                forall|k: int| 0 <= k < i ==> !#[trigger] self.accepts_by(name@, k),
            decreases 11 - i,
        {
            let enabled = self.enabled_image_exts_mask & (1u32 << (i as u32)) != 0;
            if enabled && ends_with_ignore_ascii_case(name, SUPPORTED_IMAGE_EXTS[i]) {
                proof {
                    assert(self.accepts_by(name@, i as int));
                }
                return true;
            }
            i += 1;
        }
        false
    }
}

/// Bits beyond the supported extensions make no difference.
pub proof fn high_bits_are_ignored(settings: Settings, name: Seq<char>)
    ensures
        settings.accepts(name) == (Settings {
            enabled_image_exts_mask: settings.enabled_image_exts_mask & full_mask(),
            ..settings
        }).accepts(name),
{
    let masked = Settings {
        enabled_image_exts_mask: settings.enabled_image_exts_mask & full_mask(),
        ..settings
    };
    let m = settings.enabled_image_exts_mask;
    assert forall|i: int| settings.accepts_by(name, i) == masked.accepts_by(name, i) by {
        if 0 <= i < 11 {
            let n = i as u32;
            assert((m & 0x7ff) & (1u32 << n) == m & (1u32 << n)) by (bit_vector)
                requires
                    n < 11,
            ;
        }
    }
    if settings.accepts(name) {
        let i = choose|i: int| settings.accepts_by(name, i);
        assert(masked.accepts_by(name, i));
    }
    if masked.accepts(name) {
        let i = choose|i: int| masked.accepts_by(name, i);
        assert(settings.accepts_by(name, i));
    }
}

/// A name is accepted whatever the case of its letters.
pub proof fn acceptance_ignores_case(settings: Settings, name: Seq<char>, other: Seq<char>)
    requires
        vstd::utf8::encode_utf8(name).len() == vstd::utf8::encode_utf8(other).len(),
        forall|k: int|
            0 <= k < vstd::utf8::encode_utf8(name).len() ==> crate::natural::lower_byte(
                #[trigger] vstd::utf8::encode_utf8(name)[k],
            ) == crate::natural::lower_byte(vstd::utf8::encode_utf8(other)[k]),
    ensures
        settings.accepts(name) == settings.accepts(other),
{
    let a = vstd::utf8::encode_utf8(name);
    let b = vstd::utf8::encode_utf8(other);
    assert forall|i: int| settings.accepts_by(name, i) == settings.accepts_by(other, i) by {
        let suffix = vstd::utf8::encode_utf8(SUPPORTED_IMAGE_EXTS@[i]@);
        if suffix.len() <= a.len() {
            let from = a.len() - suffix.len();
            assert forall|k: int| 0 <= k < suffix.len() implies crate::natural::lower_byte(
                a[from + k],
            ) == crate::natural::lower_byte(#[trigger] b[from + k]) by {
                assert(crate::natural::lower_byte(a[from + k]) == crate::natural::lower_byte(
                    b[from + k],
                ));
            }
        }
    }
    if settings.accepts(name) {
        let i = choose|i: int| settings.accepts_by(name, i);
        assert(settings.accepts_by(other, i));
    }
    if settings.accepts(other) {
        let i = choose|i: int| settings.accepts_by(other, i);
        assert(settings.accepts_by(name, i));
    }
}

/// Names, without extension, that mark an image as a cover.
pub const COVER_STEMS: [&'static str; 5] = ["cover", "folder", "thumb", "thumbnail", "front"];

/// Is the last component of `path`, without its extension and without
/// regard to case, one of the names of a cover?
pub open spec fn names_cover(path: Seq<char>) -> bool {
    let stem = crate::text::lower(crate::text::stem(crate::text::base_name(path)));
    exists|k: int| 0 <= k < COVER_STEMS@.len() && #[trigger] COVER_STEMS@[k]@ == stem
}

/// Is this path that of a cover image?
pub fn is_cover_name(path: &str) -> (is_cover: bool)
    ensures
        is_cover == names_cover(path@),
{
    let base = base_name_of(path);
    let stem = match last_dot_of(base) {
        Some(dot) => base.substring_char(0, dot),
        None => base,
    };
    proof {
        assert(base@.subrange(0, stem@.len() as int) =~= base@.take(stem@.len() as int));
        assert(base@.take(base@.len() as int) =~= base@);
        assert(stem@ =~= crate::text::stem(base@));
    }
    let lowered = stem.to_ascii_lowercase();
    let mut k: usize = 0;
    while k < 5
        invariant
            k <= 5,
            lowered@ == crate::text::lower(crate::text::stem(crate::text::base_name(path@))),
            forall|i: int| 0 <= i < k ==> #[trigger] COVER_STEMS@[i]@ != lowered@,
        decreases 5 - k,
    {
        if same_text(lowered.as_str(), COVER_STEMS[k]) {
            return true;
        }
        k += 1;
    }
    false
}

/// Byte order: does `a` come strictly before `b`? The first differing
/// byte decides; a proper prefix comes first.
pub open spec fn bytes_before(a: Seq<u8>, b: Seq<u8>) -> bool
    decreases a.len(),
{
    if b.len() == 0 {
        false
    } else if a.len() == 0 {
        true
    } else if a[0] == b[0] {
        bytes_before(a.skip(1), b.skip(1))
    } else {
        a[0] < b[0]
    }
}

proof fn lemma_bytes_trichotomy(a: Seq<u8>, b: Seq<u8>)
    ensures
        bytes_before(a, b) || a == b || bytes_before(b, a),
        !(bytes_before(a, b) && bytes_before(b, a)),
        !bytes_before(a, a),
    decreases a.len(),
{
    if a.len() > 0 {
        lemma_bytes_trichotomy(a.skip(1), a.skip(1));
    }
    if a.len() > 0 && b.len() > 0 {
        lemma_bytes_trichotomy(a.skip(1), b.skip(1));
        if a[0] == b[0] && a.skip(1) == b.skip(1) {
            assert(a =~= seq![a[0]] + a.skip(1));
            assert(b =~= seq![b[0]] + b.skip(1));
        }
    } else if a.len() == 0 && b.len() == 0 {
        assert(a =~= b);
    }
}

proof fn lemma_bytes_transitive(a: Seq<u8>, b: Seq<u8>, c: Seq<u8>)
    requires
        bytes_before(a, b),
        bytes_before(b, c),
    ensures
        bytes_before(a, c),
    decreases a.len(),
{
    if a.len() > 0 && a[0] == b[0] && b[0] == c[0] {
        lemma_bytes_transitive(a.skip(1), b.skip(1), c.skip(1));
    }
}

/// Does the name `a` come strictly before `b` in the given order?
pub open spec fn name_before(order: SortOrder, a: Seq<char>, b: Seq<char>) -> bool {
    let x = vstd::utf8::encode_utf8(a);
    let y = vstd::utf8::encode_utf8(b);
    match order {
        SortOrder::Alphabetical => bytes_before(x, y),
        SortOrder::Natural => crate::natural::natural_before(x, y),
    }
}

/// Both orders are strict weak orders: no name comes before itself, of
/// two names at most one comes before the other, and what comes before a
/// name comes before everything that does not.
pub proof fn name_order_is_a_weak_order(
    order: SortOrder,
    a: Seq<char>,
    b: Seq<char>,
    c: Seq<char>,
)
    ensures
        !name_before(order, a, a),
        !(name_before(order, a, b) && name_before(order, b, a)),
        name_before(order, a, b) && !name_before(order, c, b) ==> name_before(order, a, c),
{
    let x = vstd::utf8::encode_utf8(a);
    let y = vstd::utf8::encode_utf8(b);
    let z = vstd::utf8::encode_utf8(c);
    match order {
        SortOrder::Alphabetical => {
            lemma_bytes_trichotomy(x, x);
            lemma_bytes_trichotomy(x, y);
            lemma_bytes_trichotomy(y, z);
            lemma_bytes_trichotomy(x, z);
            if bytes_before(x, y) && bytes_before(y, z) {
                lemma_bytes_transitive(x, y, z);
            }
        },
        SortOrder::Natural => {
            crate::natural::natural_order_is_total(x, x);
            crate::natural::natural_order_is_total(x, y);
            crate::natural::natural_order_is_total(y, z);
            crate::natural::natural_order_is_total(x, z);
            crate::natural::natural_order_is_transitive(x, y, z);
        },
    }
}

fn bytes_before_of(a: &[u8], b: &[u8]) -> (before: bool)
    ensures
        before == bytes_before(a@, b@),
{
    let mut k: usize = 0;
    proof {
        assert(a@.skip(0) =~= a@);
        assert(b@.skip(0) =~= b@);
    }
    while k < a.len() && k < b.len() && a[k] == b[k]
        invariant
            k <= a.len(),
            k <= b.len(),
            bytes_before(a@, b@) == bytes_before(a@.skip(k as int), b@.skip(k as int)),
        decreases a.len() - k,
    {
        proof {
            assert(a@.skip(k as int).skip(1) =~= a@.skip(k + 1));
            assert(b@.skip(k as int).skip(1) =~= b@.skip(k + 1));
        }
        k += 1;
    }
    k < b.len() && (k >= a.len() || a[k] < b[k])
}

/// Does the name `a` come strictly before `b` in the given order?
fn name_before_of(order: SortOrder, a: &str, b: &str) -> (before: bool)
    ensures
        before == name_before(order, a@, b@),
{
    match order {
        SortOrder::Alphabetical => bytes_before_of(a.as_bytes(), b.as_bytes()),
        SortOrder::Natural => match natural_cmp(a, b) {
            Ordering::Less => true,
            _ => false,
        },
    }
}

/// Does the name at index `i` stand before the one at index `j` once the
/// names are sorted? Names that tie stay as they were.
pub open spec fn sorts_before(order: SortOrder, names: Seq<String>, i: int, j: int) -> bool {
    name_before(order, names[i]@, names[j]@) || (!name_before(order, names[j]@, names[i]@) && i
        < j)
}

/// May the name at index `i` be picked? With `covers`, only covers may.
pub open spec fn eligible(names: Seq<String>, covers: bool, i: int) -> bool {
    0 <= i < names.len() && (covers ==> names_cover(names[i]@))
}

/// Is the name at index `i` the one that stands first among the eligible
/// ones once the names are sorted?
pub open spec fn is_first(order: SortOrder, names: Seq<String>, covers: bool, i: int) -> bool {
    &&& eligible(names, covers, i)
    &&& forall|j: int|
        #![trigger eligible(names, covers, j)]
        eligible(names, covers, j) && j != i ==> sorts_before(order, names, i, j)
}

/// Does one of the names mark a cover?
pub open spec fn has_cover(names: Seq<String>) -> bool {
    exists|i: int| eligible(names, true, i)
}

impl Settings {
    /// Are only covers considered among these names?
    pub open spec fn wants_cover(self, names: Seq<String>) -> bool {
        match self.cover_mode {
            CoverMode::Ignore => false,
            CoverMode::Prefer => has_cover(names),
            CoverMode::Only => true,
        }
    }

    /// Picks the image that becomes the thumbnail: the first one in sort
    /// order, covers being treated as the mode says.
    pub fn pick_first_image(&self, names: Vec<String>) -> (picked: Option<String>)
        ensures
            match picked {
                Some(name) => exists|i: int|
                    #[trigger] is_first(self.sort_order, names@, self.wants_cover(names@), i)
                        && name@ == names@[i]@,
                None => names@.len() == 0 || (self.cover_mode is Only && !has_cover(names@)),
            },
            picked is None <==> names@.len() == 0 || (self.cover_mode is Only && forall|j: int|
                0 <= j < names@.len() ==> !names_cover(#[trigger] names@[j]@)),
            picked matches Some(name) ==> {
                &&& exists|i: int| 0 <= i < names@.len() && #[trigger] names@[i]@ == name@
                &&& !(self.cover_mode is Ignore) && (exists|j: int|
                    0 <= j < names@.len() && names_cover(#[trigger] names@[j]@)) ==> names_cover(
                    name@,
                ) && forall|j: int|
                    0 <= j < names@.len() && names_cover(#[trigger] names@[j]@) ==> !name_before(
                        self.sort_order,
                        names@[j]@,
                        name@,
                    )
                &&& self.cover_mode is Ignore || (forall|j: int|
                    0 <= j < names@.len() ==> !names_cover(#[trigger] names@[j]@)) ==> forall|
                    j: int,
                |
                    0 <= j < names@.len() ==> !name_before(
                        self.sort_order,
                        #[trigger] names@[j]@,
                        name@,
                    )
            },
    {
        proof {
            lemma_has_cover(names@);
        }
        let cover = match self.cover_mode {
            CoverMode::Ignore => None,
            _ => first_index(self.sort_order, &names, true),
        };
        if let Some(i) = cover {
            proof {
                assert(eligible(names@, true, i as int));
                assert(is_first(self.sort_order, names@, self.wants_cover(names@), i as int));
                picked_image_stands_first(*self, names@, i as int);
            }
            return Some(names[i].clone());
        }
        if let CoverMode::Only = self.cover_mode {
            return None;
        }
        match first_index(self.sort_order, &names, false) {
            Some(i) => {
                proof {
                    assert(is_first(self.sort_order, names@, self.wants_cover(names@), i as int));
                    picked_image_stands_first(*self, names@, i as int);
                }
                Some(names[i].clone())
            },
            None => {
                proof {
                    assert(!eligible(names@, false, 0));
                }
                None
            },
        }
    }
}

proof fn lemma_has_cover(names: Seq<String>)
    ensures
        has_cover(names) <==> exists|j: int|
            0 <= j < names.len() && names_cover(#[trigger] names[j]@),
{
    if has_cover(names) {
        let j = choose|j: int| eligible(names, true, j);
        assert(names_cover(names[j]@));
    }
    if exists|j: int| 0 <= j < names.len() && names_cover(#[trigger] names[j]@) {
        let j = choose|j: int| 0 <= j < names.len() && names_cover(#[trigger] names[j]@);
        assert(eligible(names, true, j));
    }
}

/// Where covers count and there is one, however many names there are, the
/// picked name is a cover and no other cover comes before it. Otherwise,
/// no name at all comes before it. Of names that tie, the earliest is
/// picked.
pub proof fn picked_image_stands_first(settings: Settings, names: Seq<String>, i: int)
    requires
        is_first(settings.sort_order, names, settings.wants_cover(names), i),
    ensures
        0 <= i < names.len(),
        !(settings.cover_mode is Ignore) && (exists|j: int|
            0 <= j < names.len() && names_cover(#[trigger] names[j]@)) ==> names_cover(names[i]@)
            && forall|j: int|
            0 <= j < names.len() && names_cover(#[trigger] names[j]@) ==> !name_before(
                settings.sort_order,
                names[j]@,
                names[i]@,
            ) && (j < i ==> name_before(settings.sort_order, names[i]@, names[j]@)),
        settings.cover_mode is Ignore || (forall|j: int|
            0 <= j < names.len() ==> !names_cover(#[trigger] names[j]@)) ==> forall|j: int|
            0 <= j < names.len() ==> !name_before(
                settings.sort_order,
                #[trigger] names[j]@,
                names[i]@,
            ) && (j < i ==> name_before(settings.sort_order, names[i]@, names[j]@)),
        settings.cover_mode is Only ==> names_cover(names[i]@),
{
    lemma_has_cover(names);
    let covers = settings.wants_cover(names);
    assert forall|j: int| eligible(names, covers, j) implies !name_before(
        settings.sort_order,
        #[trigger] names[j]@,
        names[i]@,
    ) && (j < i ==> name_before(settings.sort_order, names[i]@, names[j]@)) by {
        name_order_is_a_weak_order(settings.sort_order, names[i]@, names[j]@, names[i]@);
    }
}

/// Index of the eligible name that stands first once the names are
/// sorted.
fn first_index(order: SortOrder, names: &Vec<String>, covers: bool) -> (first: Option<usize>)
    ensures
        match first {
            Some(i) => i < names@.len() && is_first(order, names@, covers, i as int),
            None => forall|j: int| !#[trigger] eligible(names@, covers, j),
        },
{
    let mut best: Option<usize> = None;
    let mut k: usize = 0;
    while k < names.len()
        invariant
            k <= names.len(),
            match best {
                Some(i) => {
                    &&& i < k
                    &&& eligible(names@, covers, i as int)
                    &&& forall|j: int|
                        #![trigger eligible(names@, covers, j)]
                        eligible(names@, covers, j) && j < k && j != i ==> sorts_before(
                            order,
                            names@,
                            i as int,
                            j,
                        )
                },
                None => forall|j: int| j < k ==> !#[trigger] eligible(names@, covers, j),
            },
        decreases names.len() - k,
    {
        if !covers || is_cover_name(names[k].as_str()) {
            match best {
                None => {
                    best = Some(k);
                },
                Some(i) => {
                    if name_before_of(order, names[k].as_str(), names[i].as_str()) {
                        proof {
                            assert forall|j: int|
                                #![trigger eligible(names@, covers, j)]
                                eligible(names@, covers, j) && j < k + 1 && j
                                    != k implies sorts_before(order, names@, k as int, j) by {
                                name_order_is_a_weak_order(
                                    order,
                                    names@[k as int]@,
                                    names@[i as int]@,
                                    names@[j]@,
                                );
                                name_order_is_a_weak_order(
                                    order,
                                    names@[i as int]@,
                                    names@[j]@,
                                    names@[k as int]@,
                                );
                            }
                        }
                        best = Some(k);
                    }
                },
            }
        }
        k += 1;
    }
    best
}

/// At most one name stands first: the picked image is determined.
pub proof fn first_name_is_unique(
    order: SortOrder,
    names: Seq<String>,
    covers: bool,
    i: int,
    j: int,
)
    requires
        is_first(order, names, covers, i),
        is_first(order, names, covers, j),
    ensures
        i == j,
{
    if i != j {
        assert(eligible(names, covers, i) && eligible(names, covers, j));
        name_order_is_a_weak_order(order, names[i]@, names[j]@, names[i]@);
    }
}

/// Is `sorted` an arrangement of all the names' indices as a stable sort
/// makes it?
pub open spec fn stably_sorted(order: SortOrder, names: Seq<String>, sorted: Seq<int>) -> bool {
    &&& forall|p: int| 0 <= p < sorted.len() ==> 0 <= #[trigger] sorted[p] < names.len()
    &&& forall|i: int| 0 <= i < names.len() ==> #[trigger] sorted.contains(i)
    &&& forall|p: int, q: int|
        0 <= p < q < sorted.len() ==> sorts_before(
            order,
            names,
            #[trigger] sorted[p],
            #[trigger] sorted[q],
        )
}

/// Picking is the same as sorting all names stably and taking the first
/// eligible one.
pub proof fn picking_is_sorting_first(
    order: SortOrder,
    names: Seq<String>,
    sorted: Seq<int>,
    covers: bool,
    at: int,
)
    requires
        stably_sorted(order, names, sorted),
        0 <= at < sorted.len(),
        eligible(names, covers, sorted[at]),
        forall|p: int| 0 <= p < at ==> !eligible(names, covers, #[trigger] sorted[p]),
    ensures
        is_first(order, names, covers, sorted[at]),
{
    let i = sorted[at];
    assert forall|j: int|
        #![trigger eligible(names, covers, j)]
        eligible(names, covers, j) && j != i implies sorts_before(order, names, i, j) by {
        assert(sorted.contains(j));
        let q = choose|q: int| 0 <= q < sorted.len() && sorted[q] == j;
        if q < at {
            assert(!eligible(names, covers, sorted[q]));
        }
        assert(sorts_before(order, names, sorted[at], sorted[q]));
    }
}

/// In alphabetical order the first different byte decides, and a name
/// comes before every longer one that starts with it.
pub proof fn alphabetical_order_is_by_bytes(
    first: Seq<char>,
    second: Seq<char>,
    before: Seq<u8>,
    after_first: Seq<u8>,
    after_second: Seq<u8>,
)
    requires
        vstd::utf8::encode_utf8(first) == before + after_first,
        vstd::utf8::encode_utf8(second) == before + after_second,
        after_second.len() > 0,
        after_first.len() == 0 || after_first[0] < after_second[0],
    ensures
        name_before(SortOrder::Alphabetical, first, second),
        !name_before(SortOrder::Alphabetical, second, first),
{
    lemma_bytes_same_head(before, after_first, after_second);
    lemma_bytes_trichotomy(before + after_first, before + after_second);
}

proof fn lemma_bytes_same_head(before: Seq<u8>, a: Seq<u8>, b: Seq<u8>)
    ensures
        bytes_before(before + a, before + b) == bytes_before(a, b),
    decreases before.len(),
{
    if before.len() == 0 {
        assert(before + a =~= a);
        assert(before + b =~= b);
    } else {
        let rest = before.skip(1);
        lemma_bytes_same_head(rest, a, b);
        assert((before + a).skip(1) =~= rest + a);
        assert((before + b).skip(1) =~= rest + b);
    }
}

/// In natural order names are compared as [`crate::natural`] says, byte
/// by byte: behind one and the same beginning, the smaller of two bytes
/// that are no digits comes first, capitals counting as small letters.
pub proof fn natural_order_is_by_folded_bytes(
    first: Seq<char>,
    second: Seq<char>,
    before: Seq<u8>,
    x: u8,
    after_x: Seq<u8>,
    y: u8,
    after_y: Seq<u8>,
)
    requires
        vstd::utf8::encode_utf8(first) == before + (seq![x] + after_x),
        vstd::utf8::encode_utf8(second) == before + (seq![y] + after_y),
        !(48 <= x <= 57),
        !(48 <= y <= 57),
        crate::natural::folded(x) < crate::natural::folded(y),
    ensures
        name_before(SortOrder::Natural, first, second),
        !name_before(SortOrder::Natural, second, first),
{
    crate::natural::first_different_byte_decides(before, x, after_x, y, after_y);
    crate::natural::natural_order_is_total(
        vstd::utf8::encode_utf8(first),
        vstd::utf8::encode_utf8(second),
    );
}

/// In natural order the number with more digits comes later, unless it
/// starts with a zero, and the first different digit decides otherwise.
pub proof fn natural_order_is_by_number(
    first: Seq<char>,
    second: Seq<char>,
    before: Seq<u8>,
    m: Seq<u8>,
    after_m: Seq<u8>,
    n: Seq<u8>,
    after_n: Seq<u8>,
    k: int,
)
    requires
        vstd::utf8::encode_utf8(first) == before + (m + after_m),
        vstd::utf8::encode_utf8(second) == before + (n + after_n),
        before.len() > 0 ==> !(48 <= before.last() <= 57),
        crate::natural::is_number(m),
        crate::natural::is_number(n),
        after_m.len() > 0 ==> !(48 <= after_m[0] <= 57),
        after_n.len() > 0 ==> !(48 <= after_n[0] <= 57),
        (m.len() < n.len() && n[0] != 48) || (m.len() == n.len() && 0 <= k < m.len() && m.take(k)
            == n.take(k) && m[k] < n[k]),
    ensures
        name_before(SortOrder::Natural, first, second),
        !name_before(SortOrder::Natural, second, first),
{
    crate::natural::digits_decide_between_numbers(before, m, after_m, n, after_n, k);
    crate::natural::natural_order_is_total(
        vstd::utf8::encode_utf8(first),
        vstd::utf8::encode_utf8(second),
    );
}

/// Texts are parsed without regard to case, and nothing but the words
/// below means anything.
pub proof fn stored_words(text: Seq<char>)
    ensures
        sort_order_of(text) == Some(SortOrder::Alphabetical) <==> crate::text::spells(
            text,
            "alphabetical"@,
        ) || crate::text::spells(text, "alpha"@),
        sort_order_of(text) == Some(SortOrder::Natural) <==> crate::text::spells(text, "natural"@)
            || crate::text::spells(text, "nat"@),
        cover_mode_of(text) == Some(CoverMode::Ignore) <==> crate::text::spells(text, "ignore"@),
        cover_mode_of(text) == Some(CoverMode::Prefer) <==> crate::text::spells(text, "prefer"@),
        cover_mode_of(text) == Some(CoverMode::Only) <==> crate::text::spells(text, "only"@),
{
    lemma_registry_words();
    reveal_strlit("alphabetical");
    reveal_strlit("alpha");
    reveal_strlit("natural");
    reveal_strlit("nat");
    reveal_strlit("ignore");
    reveal_strlit("prefer");
    reveal_strlit("only");
    assert("alpha"@.len() != "nat"@.len());
    crate::text::lemma_spells(text, "alphabetical"@);
    crate::text::lemma_spells(text, "alpha"@);
    crate::text::lemma_spells(text, "natural"@);
    crate::text::lemma_spells(text, "nat"@);
    crate::text::lemma_spells(text, "ignore"@);
    crate::text::lemma_spells(text, "prefer"@);
    crate::text::lemma_spells(text, "only"@);
}

/// Each setting comes from its own stored value: a known word or number
/// counts, and without one the setting is that of a fresh installation.
/// The early value for covers counts only where there is no known word.
pub proof fn settings_come_from_their_values(values: RegistryValues, i: u32)
    requires
        i < 32,
    ensures
        ({
            let settings = loaded(values);
            let order = match values.sort_order {
                Some(text) => sort_order_of(text@),
                None => None,
            };
            let mode = match values.cover_mode {
                Some(text) => cover_mode_of(text@),
                None => None,
            };
            &&& order is Some ==> settings.sort_order == order->0
            &&& order is None ==> settings.sort_order == SortOrder::Natural
            &&& mode is Some ==> settings.cover_mode == mode->0
            &&& mode is None && values.prefer_cover_names == Some(0u32) ==> settings.cover_mode
                == CoverMode::Ignore
            &&& mode is None && values.prefer_cover_names != Some(0u32) ==> settings.cover_mode
                == CoverMode::Prefer
            &&& values.enabled_image_exts matches Some(mask) ==> (
            settings.enabled_image_exts_mask & (1u32 << i) != 0 <==> i < 11 && mask & (1u32 << i)
                != 0)
            &&& values.enabled_image_exts is None ==> settings.enabled_image_exts_mask == 2047
            &&& settings.overlay_border <==> values.overlay_border is Some && values.overlay_border
                != Some(0u32)
            &&& settings.overlay_label <==> values.overlay_label is Some && values.overlay_label
                != Some(0u32)
        }),
{
    if let Some(mask) = values.enabled_image_exts {
        assert(((mask & 0x7ff) & (1u32 << i) != 0) <==> (i < 11 && mask & (1u32 << i) != 0))
            by (bit_vector)
            requires
                i < 32,
        ;
    }
}

/// A fresh installation sorts naturally, prefers covers, takes every
/// supported format and marks nothing.
pub proof fn fresh_installation()
    ensures
        default_settings().sort_order == SortOrder::Natural,
        default_settings().cover_mode == CoverMode::Prefer,
        default_settings().enabled_image_exts_mask == 2047,
        !default_settings().overlay_border,
        !default_settings().overlay_label,
{
}

/// An image is accepted exactly if its name ends with a supported
/// extension, in letters of either case, whose bit is set. What stands
/// before the extension does not matter, however long it is.
pub proof fn acceptance_is_by_extension(settings: Settings, name: Seq<char>)
    ensures
        settings.accepts(name) <==> exists|i: int, n: int|
            0 <= i < 11 && 0 <= n <= name.len() && settings.enabled_image_exts_mask & (1u32 << (
            i as u32)) != 0 && #[trigger] crate::text::spells(
                name.skip(n),
                SUPPORTED_IMAGE_EXTS@[i]@,
            ),
{
    if settings.accepts(name) {
        let i = choose|i: int| settings.accepts_by(name, i);
        let ext = SUPPORTED_IMAGE_EXTS@[i]@;
        lemma_supported_ext(i);
        lemma_suffix_is_spelled(name, ext);
        let n = name.len() - ext.len();
        assert(crate::text::spells(name.skip(n), SUPPORTED_IMAGE_EXTS@[i]@));
    }
    if exists|i: int, n: int|
        0 <= i < 11 && 0 <= n <= name.len() && settings.enabled_image_exts_mask & (1u32 << (
        i as u32)) != 0 && #[trigger] crate::text::spells(name.skip(n), SUPPORTED_IMAGE_EXTS@[i]@) {
        let (i, n) = choose|i: int, n: int|
            0 <= i < 11 && 0 <= n <= name.len() && settings.enabled_image_exts_mask & (1u32 << (
            i as u32)) != 0 && #[trigger] crate::text::spells(
                name.skip(n),
                SUPPORTED_IMAGE_EXTS@[i]@,
            );
        let ext = SUPPORTED_IMAGE_EXTS@[i]@;
        lemma_supported_ext(i);
        lemma_spelled_is_suffix(name.take(n), name.skip(n), ext);
        assert(name =~= name.take(n) + name.skip(n));
        assert(settings.accepts_by(name, i));
    }
}

/// Putting anything in front of an accepted name leaves it accepted, and
/// every name that ends with an enabled extension is accepted.
pub proof fn acceptance_ignores_the_beginning(
    settings: Settings,
    front: Seq<char>,
    name: Seq<char>,
    i: int,
)
    requires
        0 <= i < 11,
    ensures
        settings.accepts(name) ==> settings.accepts(front + name),
        settings.enabled_image_exts_mask & (1u32 << (i as u32)) != 0 ==> settings.accepts(
            front + SUPPORTED_IMAGE_EXTS@[i]@,
        ),
{
    acceptance_is_by_extension(settings, name);
    acceptance_is_by_extension(settings, front + name);
    if settings.accepts(name) {
        let (k, n) = choose|k: int, n: int|
            0 <= k < 11 && 0 <= n <= name.len() && settings.enabled_image_exts_mask & (1u32 << (
            k as u32)) != 0 && #[trigger] crate::text::spells(
                name.skip(n),
                SUPPORTED_IMAGE_EXTS@[k]@,
            );
        let at = front.len() + n;
        assert((front + name).skip(at) =~= name.skip(n));
        assert(crate::text::spells((front + name).skip(at), SUPPORTED_IMAGE_EXTS@[k]@));
    }
    let ext = SUPPORTED_IMAGE_EXTS@[i]@;
    let whole = front + ext;
    acceptance_is_by_extension(settings, whole);
    assert(whole.skip(front.len() as int) =~= ext);
    assert(crate::text::spells(whole.skip(front.len() as int), SUPPORTED_IMAGE_EXTS@[i]@));
}

/// Is every character an ASCII one?
spec fn ascii(s: Seq<char>) -> bool {
    forall|k: int| 0 <= k < s.len() ==> 0 <= (#[trigger] s[k]) as int <= 0x7f
}

proof fn lemma_supported_ext(i: int)
    requires
        0 <= i < 11,
    ensures
        ascii(SUPPORTED_IMAGE_EXTS@[i]@),
        crate::text::no_capitals(SUPPORTED_IMAGE_EXTS@[i]@),
{
    reveal_strlit(".jpg");
    reveal_strlit(".jpeg");
    reveal_strlit(".png");
    reveal_strlit(".gif");
    reveal_strlit(".bmp");
    reveal_strlit(".tiff");
    reveal_strlit(".tif");
    reveal_strlit(".webp");
    reveal_strlit(".ico");
    reveal_strlit(".heic");
    reveal_strlit(".heif");
}

proof fn lemma_ascii_bytes(s: Seq<char>)
    requires
        ascii(s),
    ensures
        vstd::utf8::encode_utf8(s).len() == s.len(),
        forall|k: int|
            0 <= k < s.len() ==> vstd::utf8::encode_utf8(s)[k] == (#[trigger] s[k]) as int,
{
    assert(vstd::utf8::is_ascii_chars(s));
    vstd::utf8::is_ascii_chars_encode_utf8(s);
}

proof fn lemma_spelled_is_suffix(front: Seq<char>, tail: Seq<char>, ext: Seq<char>)
    requires
        ascii(ext),
        crate::text::no_capitals(ext),
        crate::text::spells(tail, ext),
    ensures
        has_suffix(vstd::utf8::encode_utf8(front + tail), vstd::utf8::encode_utf8(ext)),
{
    crate::text::lemma_encode_concat(front, tail);
    assert forall|k: int| 0 <= k < tail.len() implies 0 <= (#[trigger] tail[k]) as int <= 0x7f by {
        assert(0 <= ext[k] as int <= 0x7f);
    }
    lemma_ascii_bytes(tail);
    lemma_ascii_bytes(ext);
    let s = vstd::utf8::encode_utf8(front + tail);
    let suffix = vstd::utf8::encode_utf8(ext);
    assert forall|k: int| 0 <= k < suffix.len() implies crate::natural::lower_byte(
        #[trigger] s[s.len() - suffix.len() + k],
    ) == crate::natural::lower_byte(suffix[k]) by {
        assert(s[s.len() - suffix.len() + k] == vstd::utf8::encode_utf8(tail)[k]);
        assert(tail[k] == ext[k] || tail[k] as int + 32 == ext[k] as int);
        assert(suffix[k] == ext[k] as int);
    }
}

proof fn lemma_suffix_is_spelled(name: Seq<char>, ext: Seq<char>)
    requires
        ascii(ext),
        crate::text::no_capitals(ext),
        has_suffix(vstd::utf8::encode_utf8(name), vstd::utf8::encode_utf8(ext)),
    ensures
        ext.len() <= name.len(),
        crate::text::spells(name.skip(name.len() - ext.len()), ext),
    decreases ext.len(),
{
    let s = vstd::utf8::encode_utf8(name);
    let suffix = vstd::utf8::encode_utf8(ext);
    lemma_ascii_bytes(ext);
    if ext.len() > 0 {
        let m = ext.len() - 1;
        assert(s[s.len() - suffix.len() + m] == s.last());
        assert(crate::natural::lower_byte(s.last()) == crate::natural::lower_byte(suffix[m]));
        assert(suffix[m] == ext[m] as int);
        crate::text::lemma_last_byte(name);
        let shorter = name.drop_last();
        let front = ext.drop_last();
        lemma_ascii_bytes(front);
        let t = vstd::utf8::encode_utf8(shorter);
        let part = vstd::utf8::encode_utf8(front);
        assert forall|k: int| 0 <= k < part.len() implies crate::natural::lower_byte(
            #[trigger] t[t.len() - part.len() + k],
        ) == crate::natural::lower_byte(part[k]) by {
            assert(t[t.len() - part.len() + k] == s[s.len() - suffix.len() + k]);
            assert(part[k] == front[k] as int);
            assert(suffix[k] == ext[k] as int);
        }
        lemma_suffix_is_spelled(shorter, front);
        let tail = name.skip(name.len() - ext.len());
        assert forall|k: int| 0 <= k < tail.len() implies (#[trigger] tail[k] == ext[k] || (0x61
            <= ext[k] as int <= 0x7a && tail[k] as int + 32 == ext[k] as int)) by {
            if k < m {
                let short_tail = shorter.skip(shorter.len() - front.len());
                assert(tail[k] == short_tail[k]);
                assert(ext[k] == front[k]);
            } else {
                assert(tail[k] == name.last());
                assert(!(0x41 <= ext[m] as int <= 0x5a));
                assert(name.last() as int == s.last());
                if s.last() == suffix[m] {
                    assert(name.last() as int == ext[m] as int);
                    assert(name.last() == ext[m]);
                } else {
                    assert(s.last() + 32 == suffix[m]);
                }
            }
        }
    }
}

/// Is this one of the words that name a cover, in letters of either case?
pub open spec fn cover_word(s: Seq<char>) -> bool {
    ||| crate::text::spells(s, "cover"@)
    ||| crate::text::spells(s, "folder"@)
    ||| crate::text::spells(s, "thumb"@)
    ||| crate::text::spells(s, "thumbnail"@)
    ||| crate::text::spells(s, "front"@)
}

/// A path names a cover if and only if its last component is one of the
/// words, whatever directory it stands in. The last dot of the component
/// and what follows it do not count.
pub proof fn covers_are_named_by_word(dir: Seq<char>, head: Seq<char>, ext: Seq<char>)
    requires
        dir.len() == 0 || dir.last() == '/' || dir.last() == '\\',
        forall|k: int| 0 <= k < head.len() ==> (#[trigger] head[k]) != '/' && head[k] != '\\',
        forall|k: int|
            0 <= k < ext.len() ==> (#[trigger] ext[k]) != '/' && ext[k] != '\\' && ext[k] != '.',
    ensures
        names_cover(dir + (head + seq!['.'] + ext)) <==> cover_word(head),
        names_cover(dir + ext) <==> cover_word(ext),
{
    let name = head + seq!['.'] + ext;
    assert forall|k: int| 0 <= k < name.len() implies (#[trigger] name[k]) != '/' && name[k]
        != '\\' by {
        if k < head.len() {
            assert(name[k] == head[k]);
        } else if k > head.len() {
            assert(name[k] == ext[k - head.len() - 1]);
        }
    }
    crate::text::last_component_follows_the_directory(dir, name);
    crate::text::last_component_follows_the_directory(dir, ext);
    crate::text::last_dot_separates(head, ext);
    lemma_cover_word(head);
    lemma_cover_word(ext);
}

proof fn lemma_cover_word(s: Seq<char>)
    ensures
        cover_word(s) <==> exists|k: int|
            0 <= k < COVER_STEMS@.len() && #[trigger] COVER_STEMS@[k]@ == crate::text::lower(s),
{
    reveal_strlit("cover");
    reveal_strlit("folder");
    reveal_strlit("thumb");
    reveal_strlit("thumbnail");
    reveal_strlit("front");
    crate::text::lemma_spells(s, "cover"@);
    crate::text::lemma_spells(s, "folder"@);
    crate::text::lemma_spells(s, "thumb"@);
    crate::text::lemma_spells(s, "thumbnail"@);
    crate::text::lemma_spells(s, "front"@);
    assert(COVER_STEMS@[0]@ == "cover"@);
    assert(COVER_STEMS@[1]@ == "folder"@);
    assert(COVER_STEMS@[2]@ == "thumb"@);
    assert(COVER_STEMS@[3]@ == "thumbnail"@);
    assert(COVER_STEMS@[4]@ == "front"@);
}

/// A text ends with a suffix if and only if the bytes there are those of
/// the suffix, letters in either case; what stands before them, and how
/// long it is, does not matter.
pub proof fn suffix_is_at_the_end(front: Seq<u8>, tail: Seq<u8>, suffix: Seq<u8>)
    ensures
        tail.len() == suffix.len() ==> (has_suffix(front + tail, suffix) <==> forall|k: int|
            0 <= k < tail.len() ==> crate::natural::folded(#[trigger] tail[k])
                == crate::natural::folded(suffix[k])),
        tail.len() < suffix.len() ==> !has_suffix(tail, suffix),
{
    if tail.len() == suffix.len() {
        let s = front + tail;
        if has_suffix(s, suffix) {
            assert forall|k: int| 0 <= k < tail.len() implies crate::natural::folded(
                #[trigger] tail[k],
            ) == crate::natural::folded(suffix[k]) by {
                assert(s[s.len() - suffix.len() + k] == tail[k]);
            }
        }
        if forall|k: int|
            0 <= k < tail.len() ==> crate::natural::folded(#[trigger] tail[k])
                == crate::natural::folded(suffix[k]) {
            assert forall|k: int| 0 <= k < suffix.len() implies crate::natural::lower_byte(
                #[trigger] s[s.len() - suffix.len() + k],
            ) == crate::natural::lower_byte(suffix[k]) by {
                assert(s[s.len() - suffix.len() + k] == tail[k]);
            }
        }
    }
}

/// The settings are written as the words and numbers that stand for
/// them, and nothing else is touched.
pub proof fn settings_are_written_in_words(
    settings: Settings,
    before: RegistryValues,
    after: RegistryValues,
)
    requires
        settings.saved_as(before, after),
    ensures
        after.sort_order is Some,
        after.cover_mode is Some,
        settings.sort_order is Alphabetical ==> after.sort_order->0@ == "alphabetical"@,
        settings.sort_order is Natural ==> after.sort_order->0@ == "natural"@,
        settings.cover_mode is Ignore ==> after.cover_mode->0@ == "ignore"@,
        settings.cover_mode is Prefer ==> after.cover_mode->0@ == "prefer"@,
        settings.cover_mode is Only ==> after.cover_mode->0@ == "only"@,
        after.prefer_cover_names == before.prefer_cover_names,
        after.enabled_image_exts == Some(settings.enabled_image_exts_mask & 0x7ff),
        settings.overlay_border ==> after.overlay_border == Some(1u32),
        !settings.overlay_border ==> after.overlay_border == Some(0u32),
        settings.overlay_label ==> after.overlay_label == Some(1u32),
        !settings.overlay_label ==> after.overlay_label == Some(0u32),
{
}

/// Names are compared by their bytes: in natural order as
/// [`crate::natural`] compares them, and otherwise as they stand.
pub proof fn orders_compare_bytes(a: Seq<char>, b: Seq<char>)
    ensures
        name_before(SortOrder::Natural, a, b) == crate::natural::natural_before(
            vstd::utf8::encode_utf8(a),
            vstd::utf8::encode_utf8(b),
        ),
        name_before(SortOrder::Alphabetical, a, b) == bytes_before(
            vstd::utf8::encode_utf8(a),
            vstd::utf8::encode_utf8(b),
        ),
{
}

/// The extensions of images, in the order of the bits of a mask.
pub proof fn image_extensions()
    ensures
        SUPPORTED_IMAGE_EXTS@ =~= seq![
            ".jpg",
            ".jpeg",
            ".png",
            ".gif",
            ".bmp",
            ".tiff",
            ".tif",
            ".webp",
            ".ico",
            ".heic",
            ".heif",
        ],
{
}

} // verus!
