//! Sprite images: which of their pixels count, which file an overlay takes, and a cache of
//! those that were read.
use vstd::prelude::*;

use crate::instances::{
    law_chosen_sprite_is_usable, law_pools_are_joined, lemma_entries_nonempty, pieces, pool_entries, split_pool,
    sprite_choice, texts,
};
use crate::names::{same_but_case, small};
use crate::raster::lemma_pixel_fits;
use crate::text::{
    blank, chars_of, is_blank, law_blank_is_empty_when_stripped, strip, stripped, text_of, CharClass,
};

verus! {

/// The least alpha value of a pixel that counts.
pub const OPAQUE: u8 = 24;

/// Whether a pixel of an RGBA image counts. One beyond its bytes does not.
pub open spec fn is_opaque(pixels: Seq<u8>, iw: int, x: int, y: int) -> bool {
    let i = (y * iw + x) * 4 + 3;
    0 <= i < pixels.len() && pixels[i] >= OPAQUE
}

/// Whether a span reaches from the first to the last pixel of row `y` that counts.
pub open spec fn is_row_span(pixels: Seq<u8>, iw: int, y: int, span: Option<(u32, u32)>) -> bool {
    match span {
        Some((first, last)) => {
            &&& first <= last < iw
            &&& is_opaque(pixels, iw, first as int, y)
            &&& is_opaque(pixels, iw, last as int, y)
            &&& forall|x: int| 0 <= x < iw && #[trigger] is_opaque(pixels, iw, x, y) ==> first <= x <= last
        },
        None => forall|x: int| 0 <= x < iw ==> !#[trigger] is_opaque(pixels, iw, x, y),
    }
}

/// Finds the first and the last pixel of a row that count.
pub fn row_span(iw: u32, ih: u32, pixels: &[u8], y: u32) -> (r: Option<(u32, u32)>)
    requires
        iw * ih * 4 <= u32::MAX,
        y < ih,
    ensures
        is_row_span(pixels@, iw as int, y as int, r),
{
    let mut span: Option<(u32, u32)> = None;
    let mut x: u32 = 0;
    while x < iw
        invariant
            x <= iw,
            y < ih,
            iw * ih * 4 <= u32::MAX,
            match span {
                Some((first, last)) => {
                    &&& first <= last < x
                    &&& is_opaque(pixels@, iw as int, first as int, y as int)
                    &&& is_opaque(pixels@, iw as int, last as int, y as int)
                    &&& forall|v: int|
                        0 <= v < x && #[trigger] is_opaque(pixels@, iw as int, v, y as int) ==> first <= v <= last
                },
                None => forall|v: int| 0 <= v < x ==> !#[trigger] is_opaque(pixels@, iw as int, v, y as int),
            },
        decreases iw - x,
    {
        proof {
            crate::raster::lemma_pixel_fits(iw as int, ih as int, x as int, y as int);
            assert(y * iw >= 0) by (nonlinear_arith)
                requires
                    y >= 0,
                    iw >= 0,
            ;
        }
        let i: usize = ((y * iw + x) * 4 + 3) as usize;
        if i < pixels.len() && pixels[i] >= OPAQUE {
            assert(is_opaque(pixels@, iw as int, x as int, y as int));
            span = match span {
                Some((first, _last)) => Some((first, x)),
                None => Some((x, x)),
            };
        } else {
            assert(!is_opaque(pixels@, iw as int, x as int, y as int));
        }
        x = x + 1;
    }
    span
}

/// The part of an image that counts: the box around it, and its span in each row.
pub struct SpriteExtent {
    pub min_x: u32,
    pub max_x: u32,
    pub min_y: u32,
    pub max_y: u32,
    pub rows: Vec<Option<(u32, u32)>>,
}

/// Whether any pixel of an image counts.
pub open spec fn has_opaque(pixels: Seq<u8>, iw: int, ih: int) -> bool {
    exists|x: int, y: int| 0 <= x < iw && 0 <= y < ih && #[trigger] is_opaque(pixels, iw, x, y)
}

/// Whether an extent is that of an image: the rows are its rows, and the box holds every
/// pixel that counts and touches one with each side.
pub open spec fn is_extent(pixels: Seq<u8>, iw: int, ih: int, e: SpriteExtent) -> bool {
    &&& e.rows@.len() == ih
    &&& forall|y: int| 0 <= y < ih ==> is_row_span(pixels, iw, y, #[trigger] e.rows@[y])
    &&& e.min_x <= e.max_x < iw
    &&& e.min_y <= e.max_y < ih
    &&& forall|x: int, y: int|
        0 <= x < iw && 0 <= y < ih && #[trigger] is_opaque(pixels, iw, x, y) ==> e.min_x <= x <= e.max_x && e.min_y
            <= y <= e.max_y
    &&& e.rows@[e.min_y as int] is Some
    &&& e.rows@[e.max_y as int] is Some
    &&& exists|y: int| 0 <= y < ih && (#[trigger] e.rows@[y] matches Some((first, _)) && first == e.min_x)
    &&& exists|y: int| 0 <= y < ih && (#[trigger] e.rows@[y] matches Some((_, last)) && last == e.max_x)
}

/// Measures the part of an image that counts.
pub fn sprite_extent(iw: u32, ih: u32, pixels: &[u8]) -> (r: Option<SpriteExtent>)
    requires
        iw * ih * 4 <= u32::MAX,
    ensures
        r is Some <==> has_opaque(pixels@, iw as int, ih as int),
        r matches Some(e) ==> is_extent(pixels@, iw as int, ih as int, e),
{
    let mut rows: Vec<Option<(u32, u32)>> = Vec::new();
    let mut min_x: u32 = 0;
    let mut max_x: u32 = 0;
    let mut min_y: u32 = 0;
    let mut max_y: u32 = 0;
    let ghost mut at_min: int = 0;
    let ghost mut at_max: int = 0;
    let mut any: bool = false;
    let mut y: u32 = 0;
    while y < ih
        invariant
            y <= ih,
            iw * ih * 4 <= u32::MAX,
            rows@.len() == y,
            forall|v: int| 0 <= v < y ==> is_row_span(pixels@, iw as int, v, #[trigger] rows@[v]),
            !any ==> forall|v: int| 0 <= v < y ==> #[trigger] rows@[v] is None,
            any ==> {
                &&& min_x <= max_x < iw
                &&& min_y <= max_y < y
                &&& rows@[min_y as int] is Some
                &&& rows@[max_y as int] is Some
                &&& 0 <= at_min < y
                &&& 0 <= at_max < y
                &&& rows@[at_min] is Some
                &&& rows@[at_max] is Some
                &&& (rows@[at_min]->0).0 == min_x
                &&& (rows@[at_max]->0).1 == max_x
                &&& forall|v: int|
                    0 <= v < y && #[trigger] rows@[v] is Some ==> min_y <= v <= max_y && min_x <= (rows@[v]->0).0
                        && (rows@[v]->0).1 <= max_x
            },
        decreases ih - y,
    {
        let span: Option<(u32, u32)> = row_span(iw, ih, pixels, y);
        rows.push(span);
        if let Some((first, last)) = span {
            if !any {
                any = true;
                min_x = first;
                max_x = last;
                min_y = y;
                proof {
                    at_min = y as int;
                    at_max = y as int;
                }
            } else {
                if first < min_x {
                    min_x = first;
                    proof {
                        at_min = y as int;
                    }
                }
                if last > max_x {
                    max_x = last;
                    proof {
                        at_max = y as int;
                    }
                }
            }
            max_y = y;
        }
        y = y + 1;
    }
    if !any {
        proof {
            assert forall|x: int, v: int| 0 <= x < iw && 0 <= v < ih implies !#[trigger] is_opaque(
                pixels@,
                iw as int,
                x,
                v,
            ) by {
                assert(rows@[v] is None);
                assert(is_row_span(pixels@, iw as int, v, rows@[v]));
            }
        }
        return None;
    }
    let extent: SpriteExtent = SpriteExtent { min_x, max_x, min_y, max_y, rows };
    proof {
        let span = rows@[min_y as int];
        assert(is_row_span(pixels@, iw as int, min_y as int, span));
        assert(is_opaque(pixels@, iw as int, (span->0).0 as int, min_y as int));
        assert forall|x: int, v: int| 0 <= x < iw && 0 <= v < ih && #[trigger] is_opaque(
            pixels@,
            iw as int,
            x,
            v,
        ) implies min_x <= x <= max_x && min_y <= v <= max_y by {
            assert(is_row_span(pixels@, iw as int, v, rows@[v]));
        }
        assert(extent.rows@[at_min] is Some);
        assert(extent.rows@[at_max] is Some);
    }
    Some(extent)
}

/// The image of a sprite that is drawn over a finished picture: its own, if it has one,
/// else the first of its pool, if that is enabled.
pub open spec fn overlay_choice(single: Seq<char>, pool: Seq<char>, pool_enabled: bool) -> Option<Seq<char>> {
    if !is_blank(single) {
        Some(strip(single, CharClass::White))
    } else if pool_enabled && pool_entries(pool).len() > 0 {
        Some(pool_entries(pool)[0])
    } else {
        None
    }
}

/// Chooses the image of a sprite that is drawn over a finished picture.
pub fn overlay_sprite_path(single: &str, pool: &str, pool_enabled: bool) -> (r: Option<String>)
    ensures
        r is Some <==> overlay_choice(single@, pool@, pool_enabled) is Some,
        r matches Some(p) ==> overlay_choice(single@, pool@, pool_enabled) == Some(p@),
{
    if !blank(single) {
        return Some(text_of(&stripped(&chars_of(single), CharClass::White)));
    }
    if pool_enabled {
        let entries: Vec<Vec<char>> = split_pool(pool);
        if entries.len() > 0 {
            assert(texts(entries@)[0] == entries@[0]@);
            return Some(text_of(&entries[0]));
        }
    }
    None
}

/// The image of a sprite.
pub struct SpriteData {
    pub w: usize,
    pub h: usize,
    pub rgba: Vec<u8>,
}

impl SpriteData {
    /// The pixels are those of the size.
    pub open spec fn wf(&self) -> bool {
        self.rgba@.len() == self.w * self.h * 4
    }

    /// The red, green, blue and alpha of the pixel at (`x`, `y`).
    pub fn texel(&self, x: usize, y: usize) -> (r: [u8; 4])
        requires
            self.wf(),
            x < self.w,
            y < self.h,
        ensures
            ({
                let i = (y * self.w + x) * 4;
                r == [self.rgba@[i], self.rgba@[i + 1], self.rgba@[i + 2], self.rgba@[i + 3]]
            }),
    {
        let total: usize = self.rgba.len();
        proof {
            lemma_pixel_fits(self.w as int, self.h as int, x as int, y as int);
            assert((y * self.w + x) * 4 + 3 < total);
            assert(0 <= y * self.w) by (nonlinear_arith)
                requires
                    y >= 0,
                    self.w >= 0,
            ;
        }
        let i: usize = (y * self.w + x) * 4;
        [self.rgba[i], self.rgba[i + 1], self.rgba[i + 2], self.rgba[i + 3]]
    }
}

/// The formats of image files that are read.
#[derive(Clone, Copy, Debug, PartialEq, Eq, Structural)]
pub enum ImageKind {
    Png,
    Gif,
    Bmp,
    WebP,
    Jpeg,
}

/// Whether a character parts the names in a path, here or elsewhere.
pub open spec fn is_separator(c: char) -> bool {
    c == '/' || c == '\\' || c == ':'
}

/// Whether a path is read alike everywhere: it does not begin with two separators nor end in one,
/// or in one and a full stop, and no full stop follows a backslash or a colon.
pub open spec fn is_plain_path(path: Seq<char>) -> bool {
    &&& path.len() > 0
    &&& !is_separator(path.last())
    &&& path.len() > 1 && is_separator(path[0]) ==> !is_separator(path[1])
    &&& path.len() > 1 && path.last() == '.' ==> !is_separator(path[path.len() - 2])
    &&& forall|i: int|
        0 < i < path.len() && path[i] == '.' ==> #[trigger] path[i - 1] != '\\' && path[i - 1] != ':'
}

/// What follows the last full stop in the name of a file, in small letters. A full stop that
/// the name begins with does not count.
pub open spec fn extension(path: Seq<char>) -> Option<Seq<char>>
    decreases path.len(),
{
    if path.len() == 0 || is_separator(path.last()) {
        None
    } else if path.last() == '.' {
        if path.len() > 1 && !is_separator(path[path.len() - 2]) {
            Some(Seq::empty())
        } else {
            None
        }
    } else {
        match extension(path.drop_last()) {
            Some(e) => Some(e.push(small(path.last()))),
            None => None,
        }
    }
}

/// The format that an extension stands for, if it is one that is read.
pub open spec fn kind_of_extension(e: Seq<char>) -> Option<ImageKind> {
    if e == seq!['p', 'n', 'g'] || e == seq!['a', 'p', 'n', 'g'] {
        Some(ImageKind::Png)
    } else if e == seq!['g', 'i', 'f'] {
        Some(ImageKind::Gif)
    } else if e == seq!['b', 'm', 'p'] {
        Some(ImageKind::Bmp)
    } else if e == seq!['w', 'e', 'b', 'p'] {
        Some(ImageKind::WebP)
    } else if e == seq!['j', 'p', 'g'] || e == seq!['j', 'p', 'e', 'g'] || e == seq!['j', 'f', 'i', 'f'] {
        Some(ImageKind::Jpeg)
    } else {
        None
    }
}

/// The format that a path stands for.
pub open spec fn kind_of_path(path: Seq<char>) -> Option<ImageKind> {
    match extension(path) {
        Some(e) => kind_of_extension(e),
        None => None,
    }
}

/// The width, height and RGBA pixels of an image, if there is one.
pub open spec fn picture_of(image: Option<SpriteData>) -> Option<(nat, nat, Seq<u8>)> {
    match image {
        Some(d) => Some((d.w as nat, d.h as nat, d.rgba@)),
        None => None,
    }
}

/// The width, height and RGBA pixels that the bytes of a file stand for in a format, if they do.
pub uninterp spec fn picture_in(kind: ImageKind, bytes: Seq<u8>) -> Option<(nat, nat, Seq<u8>)>;

/// Whether an image is what the bytes of the file at a path hold. A path of no format that is
/// read gives none. A JPEG may round as its machine does, so its pixels are open.
pub open spec fn is_image_of(path: Seq<char>, bytes: Seq<u8>, image: Option<SpriteData>) -> bool {
    match kind_of_path(path) {
        None => image is None,
        Some(ImageKind::Jpeg) => true,
        Some(kind) => picture_of(image) == picture_in(kind, bytes),
    }
}

/// Decodes the bytes of an image file: `image::load_from_memory_with_format`, in the format
/// that `ImageFormat::from_path` finds in the path's extension, as eight bits per channel. The
/// extension counts in either case. One that it does not know, or whose decoder is not built in
/// (only PNG, GIF, BMP, WebP and JPEG are), gives no image. The pixels are those of the size, and
/// what the bytes give depends on them and the format alone, but for a JPEG, where nothing is
/// said beyond the size: its decoder may round as its machine does. Paths that a machine may
/// part into names in its own way are left out.
#[verifier::external_body]
fn decode_image(path: &str, bytes: &[u8]) -> (r: Option<SpriteData>)
    ensures
        r matches Some(d) ==> d.wf(),
        is_plain_path(path@) && kind_of_path(path@) is None ==> r is None,
        is_plain_path(path@) ==> (kind_of_path(path@) matches Some(kind) ==> kind != ImageKind::Jpeg ==> picture_of(r)
            == picture_in(kind, bytes@)),
{
    let format = image::ImageFormat::from_path(path).ok()?;
    let picture = image::load_from_memory_with_format(bytes, format).ok()?.to_rgba8();
    let (w, h) = picture.dimensions();
    Some(SpriteData { w: w as usize, h: h as usize, rgba: picture.into_raw() })
}

/// Whether an image is one that `decode_image` gives for the bytes of the file at a path.
pub closed spec fn is_decoded(path: Seq<char>, bytes: Seq<u8>, image: Option<SpriteData>) -> bool {
    exists|p: &str, b: &[u8]| p@ == path && b@ == bytes && #[trigger] call_ensures(decode_image, (p, b), image)
}

/// A path that was tried, and its image. A path that could not be read is kept too, without
/// an image, so that it is not tried again.
struct SpriteEntry {
    path: String,
    image: Option<SpriteData>,
}

/// The images that were read, by path.
pub struct SpriteCache {
    entries: Vec<SpriteEntry>,
}

/// Where to find a sprite.
pub enum SpriteLookup {
    /// The path is blank.
    Blank,
    /// The image at this path is still to be read.
    Missing(String),
    /// The image is at this place of the cache.
    Cached(usize),
}

impl SpriteCache {
    /// The paths that were tried.
    pub closed spec fn paths(&self) -> Seq<String> {
        self.entries@.map_values(|e: SpriteEntry| e.path)
    }

    /// The images that were read, in the order of their paths.
    pub closed spec fn images(&self) -> Seq<Option<SpriteData>> {
        self.entries@.map_values(|e: SpriteEntry| e.image)
    }

    /// No path is there twice, and the images are in order.
    #[verifier::type_invariant]
    pub closed spec fn wf(&self) -> bool {
        &&& forall|i: int, j: int|
            0 <= i < j < self.entries@.len() ==> (#[trigger] self.entries@[i]).path@ != (
            #[trigger] self.entries@[j]).path@
        &&& forall|i: int|
            0 <= i < self.entries@.len() ==> match (#[trigger] self.entries@[i]).image {
                Some(d) => d.wf(),
                None => true,
            }
    }

    /// Whether a path was tried.
    pub open spec fn tried(&self, path: Seq<char>) -> bool {
        exists|i: int| 0 <= i < self.paths().len() && (#[trigger] self.paths()[i])@ == path
    }

    /// An empty cache.
    pub fn new() -> (r: Self)
        ensures
            r.paths().len() == 0,
    {
        SpriteCache { entries: Vec::new() }
    }

    /// Looks a path up, without the white space around it.
    pub fn find(&self, path: &str) -> (r: SpriteLookup)
        ensures
            ({
                let key = strip(path@, CharClass::White);
                match r {
                    SpriteLookup::Blank => is_blank(path@),
                    SpriteLookup::Missing(p) => !is_blank(path@) && p@ == key && !self.tried(key),
                    SpriteLookup::Cached(i) => !is_blank(path@) && i < self.images().len() && i < self.paths().len()
                        && self.paths()[i as int]@ == key,
                }
            }),
    {
        if blank(path) {
            return SpriteLookup::Blank;
        }
        let key: String = text_of(&stripped(&chars_of(path), CharClass::White));
        let mut i: usize = 0;
        while i < self.entries.len()
            invariant
                i <= self.entries@.len(),
                !is_blank(path@),
                key@ == strip(path@, CharClass::White),
                forall|j: int| 0 <= j < i ==> (#[trigger] self.paths()[j])@ != key@,
            decreases self.entries.len() - i,
        {
            assert(self.paths()[i as int] == self.entries@[i as int].path);
            if self.entries[i].path == key {
                return SpriteLookup::Cached(i);
            }
            i = i + 1;
        }
        SpriteLookup::Missing(key)
    }

    /// Keeps the image of a path that was missing, or that it has none.
    pub fn store(&mut self, path: String, image: Option<SpriteData>)
        requires
            !old(self).tried(path@),
            image matches Some(d) ==> d.wf(),
        ensures
            final(self).paths() == old(self).paths().push(path),
            final(self).images() == old(self).images().push(image),
            final(self).images().len() == final(self).paths().len(),
    {
        proof {
            use_type_invariant(&*self);
        }
        let ghost paths = self.paths();
        let ghost images = self.images();
        let mut entries: Vec<SpriteEntry> = Vec::new();
        std::mem::swap(&mut entries, &mut self.entries);
        let ghost before = entries@;
        let entry: SpriteEntry = SpriteEntry { path, image };
        entries.push(entry);
        proof {
            assert forall|i: int| 0 <= i < before.len() implies (#[trigger] entries@[i]).path@ != path@ by {
                assert(paths[i] == before[i].path);
            }
        }
        self.entries = entries;
        proof {
            assert(self.paths() =~= paths.push(path));
            assert(self.images() =~= images.push(image));
        }
    }

    /// Decodes the file of a path that was missing and keeps its image, or the failure: that
    /// the file could not be read, or not be decoded.
    pub fn load(&mut self, path: String, file: Option<Vec<u8>>)
        requires
            !old(self).tried(path@),
        ensures
            final(self).paths() == old(self).paths().push(path),
            final(self).images().len() == final(self).paths().len(),
            final(self).images().drop_last() == old(self).images(),
            file is None ==> final(self).images().last() is None,
            file matches Some(bytes) ==> is_decoded(path@, bytes@, final(self).images().last()),
            file matches Some(bytes) ==> is_plain_path(path@) ==> is_image_of(
                path@,
                bytes@,
                final(self).images().last(),
            ),
    {
        let decode = decode_image;
        let image: Option<SpriteData> = match &file {
            Some(bytes) => {
                let made: Option<SpriteData> = decode(path.as_str(), bytes.as_slice());
                assert(is_decoded(path@, bytes@, made));
                made
            },
            None => None,
        };
        let ghost images = self.images();
        self.store(path, image);
        assert(self.images().drop_last() =~= images);
    }

    /// The image at a place.
    pub fn image(&self, i: usize) -> (r: &Option<SpriteData>)
        requires
            i < self.images().len(),
        ensures
            *r == self.images()[i as int],
            r matches Some(d) ==> d.wf(),
    {
        proof {
            use_type_invariant(self);
        }
        &self.entries[i].image
    }

    /// What was stored under a path is what a look-up of that path finds: no two places have
    /// the same path.
    pub proof fn law_stored_is_found(&self, path: Seq<char>, i: int, j: int)
        requires
            self.wf(),
            0 <= i < self.paths().len(),
            0 <= j < self.paths().len(),
            self.paths()[i]@ == path,
            self.paths()[j]@ == path,
        ensures
            i == j,
            self.tried(path),
            self.images().len() == self.paths().len(),
    {
        if i < j {
            assert(self.entries@[i].path@ != self.entries@[j].path@);
        } else if j < i {
            assert(self.entries@[j].path@ != self.entries@[i].path@);
        }
    }
}

/// An overlay takes its own image wherever it has one, as an object without a pool does; else the
/// first entry of its pool, which entries behind it do not change, and without either none.
pub proof fn law_overlay_takes_its_own_first(
    single: Seq<char>,
    pool: Seq<char>,
    more: Seq<char>,
    enabled: bool,
    seed: u32,
    key: i32,
)
    ensures
        !is_blank(single) ==> overlay_choice(single, pool, enabled) == sprite_choice(single, more, false, seed, key),
        is_blank(single) ==> overlay_choice(single, pool, false) is None,
        is_blank(single) ==> (overlay_choice(single, pool, true) is Some <==> pool_entries(pool).len() > 0),
        is_blank(single) && pool_entries(pool).len() > 0 ==> overlay_choice(single, pool.push(';') + more, true)
            == overlay_choice(single, pool, true),
        is_blank(single) && pool_entries(pool).len() == 0 ==> overlay_choice(single, pool.push(';') + more, true)
            == overlay_choice(single, more, true),
        overlay_choice(single, pool, enabled) matches Some(p) ==> p.len() > 0,
{
    law_pools_are_joined(pool, ';', more);
    law_blank_is_empty_when_stripped(single);
    law_chosen_sprite_is_usable(single, pool, true, seed, key);
    if pool_entries(pool).len() > 0 {
        assert((pool_entries(pool) + pool_entries(more))[0] == pool_entries(pool)[0]);
        lemma_entries_nonempty(pieces(pool));
    } else {
        assert(pool_entries(pool) + pool_entries(more) =~= pool_entries(more));
    }
}

/// A name that ends in a full stop and further characters has these as its extension, in small
/// letters, if none of them is a full stop or parts names.
pub proof fn law_extension_follows_the_last_stop(name: Seq<char>, e: Seq<char>)
    requires
        name.len() > 0,
        !is_separator(name.last()),
        forall|i: int| 0 <= i < e.len() ==> #[trigger] e[i] != '.' && !is_separator(e[i]),
    ensures
        extension(name.push('.') + e) == Some(e.map_values(|c: char| small(c))),
    decreases e.len(),
{
    let path = name.push('.') + e;
    if e.len() == 0 {
        assert(path =~= name.push('.'));
        assert(path[path.len() - 2] == name.last());
        assert(e.map_values(|c: char| small(c)) =~= Seq::<char>::empty());
    } else {
        let rest = e.drop_last();
        assert forall|i: int| 0 <= i < rest.len() implies #[trigger] rest[i] != '.' && !is_separator(rest[i]) by {
            assert(rest[i] == e[i]);
        }
        law_extension_follows_the_last_stop(name, rest);
        assert(path.drop_last() =~= name.push('.') + rest);
        assert(path.last() == e[e.len() - 1]);
        assert(rest.map_values(|c: char| small(c)).push(small(e.last())) =~= e.map_values(|c: char| small(c)));
    }
}

/// The extension is that of the last name of a path, and a name without a full stop, or with one
/// at its beginning alone, has none.
pub proof fn law_extension_of_the_last_name(dir: Seq<char>, sep: char, name: Seq<char>)
    requires
        is_separator(sep),
    ensures
        extension(dir.push(sep) + name) == extension(name),
        (forall|i: int| 0 < i < name.len() ==> #[trigger] name[i] != '.') ==> extension(name) is None,
    decreases name.len(),
{
    let path = dir.push(sep) + name;
    if name.len() == 0 {
        assert(path.last() == sep);
    } else {
        assert(path.last() == name.last());
        assert(path.drop_last() =~= dir.push(sep) + name.drop_last());
        assert(name.last() == name[name.len() - 1]);
        assert(path[path.len() - 2] == if name.len() > 1 {
            name[name.len() - 2]
        } else {
            sep
        });
        law_extension_of_the_last_name(dir, sep, name.drop_last());
        if forall|i: int| 0 < i < name.len() ==> #[trigger] name[i] != '.' {
            let rest = name.drop_last();
            assert forall|i: int| 0 < i < rest.len() implies #[trigger] rest[i] != '.' by {
                assert(rest[i] == name[i]);
            }
        }
    }
}

/// The format of a file does not depend on the case of its name.
pub proof fn law_format_ignores_the_case(a: Seq<char>, b: Seq<char>)
    requires
        same_but_case(a, b),
    ensures
        extension(a) == extension(b),
        kind_of_path(a) == kind_of_path(b),
    decreases a.len(),
{
    if a.len() > 0 {
        let m = a.drop_last();
        let n = b.drop_last();
        assert forall|i: int| 0 <= i < m.len() implies small(#[trigger] m[i]) == small(n[i]) by {
            assert(m[i] == a[i] && n[i] == b[i]);
        }
        assert(small(a[a.len() - 1]) == small(b[b.len() - 1]));
        if a.len() > 1 {
            assert(small(a[a.len() - 2]) == small(b[b.len() - 2]));
        }
        law_format_ignores_the_case(m, n);
    }
}

/// Whether a pixel counts depends on its alpha byte alone, and on that of no other pixel.
#[verifier::rlimit(50)]
pub proof fn law_only_alpha_counts(pixels: Seq<u8>, iw: int, x: int, y: int, u: int, v: int, i: int, value: u8)
    requires
        0 <= x < iw,
        0 <= y,
        0 <= u < iw,
        0 <= v,
        0 <= i < pixels.len(),
    ensures
        i % 4 != 3 ==> is_opaque(pixels.update(i, value), iw, x, y) == is_opaque(pixels, iw, x, y),
        i == (y * iw + x) * 4 + 3 ==> (is_opaque(pixels.update(i, value), iw, x, y) <==> value >= 24),
        i == (y * iw + x) * 4 + 3 && (u != x || v != y) ==> is_opaque(pixels.update(i, value), iw, u, v) == is_opaque(
            pixels,
            iw,
            u,
            v,
        ),
{
    if (u != x || v != y) && y * iw + x == v * iw + u {
        assert(y == v) by (nonlinear_arith)
            requires
                y * iw + x == v * iw + u,
                0 <= x < iw,
                0 <= u < iw,
        ;
    }
    assert(y * iw >= 0) by (nonlinear_arith)
        requires
            y >= 0,
            iw > 0,
    ;
}

/// A row has one span, and an image one extent.
#[verifier::rlimit(50)]
pub proof fn law_one_extent(
    pixels: Seq<u8>,
    iw: int,
    ih: int,
    y: int,
    s: Option<(u32, u32)>,
    t: Option<(u32, u32)>,
    e: SpriteExtent,
    f: SpriteExtent,
)
    ensures
        is_row_span(pixels, iw, y, s) && is_row_span(pixels, iw, y, t) ==> s == t,
        is_extent(pixels, iw, ih, e) && is_extent(pixels, iw, ih, f) ==> e.min_x == f.min_x && e.max_x == f.max_x
            && e.min_y == f.min_y && e.max_y == f.max_y && e.rows@ == f.rows@,
{
    if is_row_span(pixels, iw, y, s) && is_row_span(pixels, iw, y, t) {
        if let Some((a, b)) = s {
            assert(is_opaque(pixels, iw, a as int, y) && is_opaque(pixels, iw, b as int, y));
        }
        if let Some((a, b)) = t {
            assert(is_opaque(pixels, iw, a as int, y) && is_opaque(pixels, iw, b as int, y));
        }
    }
    if is_extent(pixels, iw, ih, e) && is_extent(pixels, iw, ih, f) {
        lemma_extent_within(pixels, iw, ih, e, f);
        lemma_extent_within(pixels, iw, ih, f, e);
        assert forall|r: int| 0 <= r < ih implies e.rows@[r] == f.rows@[r] by {
            assert(is_row_span(pixels, iw, r, e.rows@[r]));
            assert(is_row_span(pixels, iw, r, f.rows@[r]));
            if let Some((a, b)) = e.rows@[r] {
                assert(is_opaque(pixels, iw, a as int, r) && is_opaque(pixels, iw, b as int, r));
            }
            if let Some((a, b)) = f.rows@[r] {
                assert(is_opaque(pixels, iw, a as int, r) && is_opaque(pixels, iw, b as int, r));
            }
        }
        assert(e.rows@ =~= f.rows@);
    }
}

proof fn lemma_extent_within(pixels: Seq<u8>, iw: int, ih: int, e: SpriteExtent, f: SpriteExtent)
    requires
        is_extent(pixels, iw, ih, e),
        is_extent(pixels, iw, ih, f),
    ensures
        f.min_x <= e.min_x,
        f.min_y <= e.min_y,
        e.max_x <= f.max_x,
        e.max_y <= f.max_y,
{
    assert(is_row_span(pixels, iw, e.min_y as int, e.rows@[e.min_y as int]));
    assert(is_row_span(pixels, iw, e.max_y as int, e.rows@[e.max_y as int]));
    if let Some((a, b)) = e.rows@[e.min_y as int] {
        assert(is_opaque(pixels, iw, a as int, e.min_y as int));
    }
    if let Some((a, b)) = e.rows@[e.max_y as int] {
        assert(is_opaque(pixels, iw, a as int, e.max_y as int));
    }
    let y = choose|y: int| 0 <= y < ih && (#[trigger] e.rows@[y] matches Some((first, _)) && first == e.min_x);
    assert(is_row_span(pixels, iw, y, e.rows@[y]));
    assert(is_opaque(pixels, iw, e.min_x as int, y));
    let z = choose|y: int| 0 <= y < ih && (#[trigger] e.rows@[y] matches Some((_, last)) && last == e.max_x);
    assert(is_row_span(pixels, iw, z, e.rows@[z]));
    assert(is_opaque(pixels, iw, e.max_x as int, z));
}

/// The formats go by their usual extensions, whatever the name before them.
#[verifier::rlimit(50)]
pub proof fn law_formats_by_extension(name: Seq<char>)
    requires
        name.len() > 0,
        !is_separator(name.last()),
    ensures
        kind_of_path(name.push('.') + seq!['p', 'n', 'g']) == Some(ImageKind::Png),
        kind_of_path(name.push('.') + seq!['a', 'p', 'n', 'g']) == Some(ImageKind::Png),
        kind_of_path(name.push('.') + seq!['g', 'i', 'f']) == Some(ImageKind::Gif),
        kind_of_path(name.push('.') + seq!['b', 'm', 'p']) == Some(ImageKind::Bmp),
        kind_of_path(name.push('.') + seq!['w', 'e', 'b', 'p']) == Some(ImageKind::WebP),
        kind_of_path(name.push('.') + seq!['j', 'p', 'g']) == Some(ImageKind::Jpeg),
        kind_of_path(name.push('.') + seq!['j', 'p', 'e', 'g']) == Some(ImageKind::Jpeg),
        kind_of_path(name.push('.') + seq!['j', 'f', 'i', 'f']) == Some(ImageKind::Jpeg),
        kind_of_path(name.push('.')) is None,
{
    lemma_format_of(name, seq!['p', 'n', 'g']);
    lemma_format_of(name, seq!['a', 'p', 'n', 'g']);
    lemma_format_of(name, seq!['g', 'i', 'f']);
    lemma_format_of(name, seq!['b', 'm', 'p']);
    lemma_format_of(name, seq!['w', 'e', 'b', 'p']);
    lemma_format_of(name, seq!['j', 'p', 'g']);
    lemma_format_of(name, seq!['j', 'p', 'e', 'g']);
    lemma_format_of(name, seq!['j', 'f', 'i', 'f']);
    lemma_format_of(name, Seq::empty());
    assert(name.push('.') + Seq::<char>::empty() =~= name.push('.'));
    lemma_kinds();
}

proof fn lemma_format_of(name: Seq<char>, e: Seq<char>)
    requires
        name.len() > 0,
        !is_separator(name.last()),
        forall|i: int| 0 <= i < e.len() ==> 'a' <= #[trigger] e[i] <= 'z',
    ensures
        kind_of_path(name.push('.') + e) == kind_of_extension(e),
{
    law_extension_follows_the_last_stop(name, e);
    assert(e.map_values(|c: char| small(c)) =~= e);
}

#[verifier::rlimit(50)]
proof fn lemma_kinds()
    ensures
        kind_of_extension(seq!['p', 'n', 'g']) == Some(ImageKind::Png),
        kind_of_extension(seq!['a', 'p', 'n', 'g']) == Some(ImageKind::Png),
        kind_of_extension(seq!['g', 'i', 'f']) == Some(ImageKind::Gif),
        kind_of_extension(seq!['b', 'm', 'p']) == Some(ImageKind::Bmp),
        kind_of_extension(seq!['w', 'e', 'b', 'p']) == Some(ImageKind::WebP),
        kind_of_extension(seq!['j', 'p', 'g']) == Some(ImageKind::Jpeg),
        kind_of_extension(seq!['j', 'p', 'e', 'g']) == Some(ImageKind::Jpeg),
        kind_of_extension(seq!['j', 'f', 'i', 'f']) == Some(ImageKind::Jpeg),
        kind_of_extension(Seq::empty()) is None,
{
    let png = seq!['p', 'n', 'g'];
    let apng = seq!['a', 'p', 'n', 'g'];
    let gif = seq!['g', 'i', 'f'];
    let bmp = seq!['b', 'm', 'p'];
    let webp = seq!['w', 'e', 'b', 'p'];
    assert(png[0] == 'p' && apng[0] == 'a' && gif[0] == 'g' && bmp[0] == 'b' && webp[0] == 'w');
    assert(seq!['j', 'p', 'g'][0] == 'j' && seq!['j', 'p', 'e', 'g'][0] == 'j' && seq!['j', 'f', 'i', 'f'][0] == 'j');
    assert(png.len() == 3 && apng.len() == 4 && gif.len() == 3 && bmp.len() == 3 && webp.len() == 4);
    assert(seq!['j', 'p', 'g'].len() == 3 && seq!['j', 'p', 'e', 'g'].len() == 4 && seq!['j', 'f', 'i', 'f'].len() == 4);
    assert(Seq::<char>::empty().len() == 0);
}

} // verus!
