//! The application icon: one of the icon files next to the executable,
//! decoded with the `image` crate, or a built-in square.
use vstd::prelude::*;
use vstd::string::*;

verus! {

/// An RGBA image, row by row, four bytes per pixel.
pub struct IconData {
    pub rgba: Vec<u8>,
    pub width: u32,
    pub height: u32,
}

/// Side length of the built-in icon.
pub const DEFAULT_ICON_SIZE: u32 = 32;

/// Whether pixel (`x`, `y`) of the built-in icon lies in its two-pixel frame.
pub open spec fn on_icon_border(x: int, y: int) -> bool {
    x < 2 || x >= 30 || y < 2 || y >= 30
}

/// Channel `c` of pixel (`x`, `y`) of the built-in icon: an opaque white
/// frame around an opaque blue square.
pub open spec fn default_icon_channel(x: int, y: int, c: int) -> u8 {
    if on_icon_border(x, y) {
        255
    } else if c == 0 {
        40
    } else if c == 1 {
        100
    } else if c == 2 {
        200
    } else {
        255
    }
}

/// The built-in icon, used when no icon file can be loaded: 32 by 32
/// pixels, a white frame two pixels wide around a blue square.
pub fn make_default_icon() -> (r: IconData)
    ensures
        r.width == DEFAULT_ICON_SIZE,
        r.height == DEFAULT_ICON_SIZE,
        r.rgba@.len() == 32 * 32 * 4,
        forall|x: int, y: int, c: int|
            0 <= x < 32 && 0 <= y < 32 && 0 <= c < 4 ==> #[trigger] r.rgba@[(y * 32 + x) * 4 + c]
                == default_icon_channel(x, y, c),
{
    let size: u32 = DEFAULT_ICON_SIZE;
    let mut pixels: Vec<u8> = Vec::with_capacity(32 * 32 * 4);
    let mut y: u32 = 0;
    while y < size
        invariant
            size == 32,
            y <= 32,
            pixels@.len() == y * 32 * 4,
            forall|xx: int, yy: int, c: int|
                0 <= xx < 32 && 0 <= yy < y && 0 <= c < 4 ==> #[trigger] pixels@[(yy * 32 + xx) * 4
                    + c] == default_icon_channel(xx, yy, c),
        decreases 32 - y,
    {
        let mut x: u32 = 0;
        while x < size
            invariant
                size == 32,
                y < 32,
                x <= 32,
                pixels@.len() == (y * 32 + x) * 4,
                forall|xx: int, yy: int, c: int|
                    0 <= xx < 32 && 0 <= yy < 32 && 0 <= c < 4 && yy * 32 + xx < y * 32 + x
                        ==> #[trigger] pixels@[(yy * 32 + xx) * 4 + c] == default_icon_channel(
                        xx,
                        yy,
                        c,
                    ),
            decreases 32 - x,
        {
            let border = x < 2 || x >= size - 2 || y < 2 || y >= size - 2;
            let ghost base = pixels@.len();
            if border {
                pixels.push(255);
                pixels.push(255);
                pixels.push(255);
                pixels.push(255);
            } else {
                pixels.push(40);
                pixels.push(100);
                pixels.push(200);
                pixels.push(255);
            }
            assert forall|xx: int, yy: int, c: int|
                0 <= xx < 32 && 0 <= yy < 32 && 0 <= c < 4 && yy * 32 + xx < y * 32 + x + 1
                    implies #[trigger] pixels@[(yy * 32 + xx) * 4 + c] == default_icon_channel(
                    xx,
                    yy,
                    c,
                ) by {
                if yy * 32 + xx == y * 32 + x {
                    assert(yy == y && xx == x);
                }
            }
            x = x + 1;
        }
        assert forall|xx: int, yy: int, c: int|
            0 <= xx < 32 && 0 <= yy < y + 1 && 0 <= c < 4 implies #[trigger] pixels@[(yy * 32 + xx)
                * 4 + c] == default_icon_channel(xx, yy, c) by {
            assert(yy * 32 + xx < (y + 1) * 32);
        }
        y = y + 1;
    }
    IconData { rgba: pixels, width: size, height: size }
}

/// Whether `r` is the built-in icon.
pub open spec fn is_default_icon(r: IconData) -> bool {
    &&& r.width == DEFAULT_ICON_SIZE
    &&& r.height == DEFAULT_ICON_SIZE
    &&& r.rgba@.len() == 32 * 32 * 4
    &&& forall|x: int, y: int, c: int|
        0 <= x < 32 && 0 <= y < 32 && 0 <= c < 4 ==> #[trigger] r.rgba@[(y * 32 + x) * 4 + c]
            == default_icon_channel(x, y, c)
}

/// The image formats of the icon files.
#[derive(Debug, Clone, Copy, PartialEq, Eq, Structural)]
pub enum IconFormat {
    Png,
    WebP,
    Jpeg,
}

/// The name of the `i`-th icon file looked for, in order.
pub open spec fn icon_file_name(i: int) -> Seq<char> {
    if i == 0 {
        "icon.png"@
    } else if i == 1 {
        "icon.webp"@
    } else if i == 2 {
        "icon.jpg"@
    } else {
        "icon.jpeg"@
    }
}

/// The format of the `i`-th icon file, as its extension names it.
pub open spec fn icon_file_format(i: int) -> IconFormat {
    if i == 0 {
        IconFormat::Png
    } else if i == 1 {
        IconFormat::WebP
    } else {
        IconFormat::Jpeg
    }
}

/// Number of icon files looked for.
pub const ICON_FILE_COUNT: usize = 4;

/// The icon files looked for next to the executable, in order.
pub fn icon_file_names() -> (r: Vec<String>)
    ensures
        r@.len() == ICON_FILE_COUNT,
        forall|i: int| 0 <= i < ICON_FILE_COUNT ==> (#[trigger] r@[i])@ == icon_file_name(i),
{
    let mut v: Vec<String> = Vec::new();
    v.push(String::from_str("icon.png"));
    v.push(String::from_str("icon.webp"));
    v.push(String::from_str("icon.jpg"));
    v.push(String::from_str("icon.jpeg"));
    v
}

fn icon_format_at(i: usize) -> (r: IconFormat)
    ensures
        r == icon_file_format(i as int),
{
    if i == 0 {
        IconFormat::Png
    } else if i == 1 {
        IconFormat::WebP
    } else {
        IconFormat::Jpeg
    }
}

/// What `image::load_from_memory_with_format` makes of `bytes` read as
/// `format`, converted to 8-bit RGBA: width, height and pixels, or `None`
/// where the crate reports an error.
pub uninterp spec fn decoded_rgba(bytes: Seq<u8>, format: IconFormat) -> Option<(u32, u32, Seq<u8>)>;

/// A decoded image by its view.
pub open spec fn decoded_view(o: Option<(u32, u32, Vec<u8>)>) -> Option<(u32, u32, Seq<u8>)> {
    match o {
        Some(t) => Some((t.0, t.1, t.2@)),
        None => None,
    }
}

/// Decodes an image held in memory with `image::load_from_memory_with_format`
/// and converts it with `DynamicImage::into_rgba8`: width, height and the
/// raw RGBA pixels, or `None` where the crate returns an error. The result
/// depends on the bytes and the format alone; what the decoders accept is
/// not stated here. That a malformed file makes the call return an error
/// rather than panic rests on the PNG, WebP and JPEG decoders the crate
/// uses (`png`, `image-webp`, `zune-jpeg`), which are not checked here.
#[verifier::external_body]
fn decode_rgba(bytes: &[u8], format: IconFormat) -> (r: Option<(u32, u32, Vec<u8>)>)
    ensures
        decoded_view(r) == decoded_rgba(bytes@, format),
{
    let f = match format {
        IconFormat::Png => image::ImageFormat::Png,
        IconFormat::WebP => image::ImageFormat::WebP,
        IconFormat::Jpeg => image::ImageFormat::Jpeg,
    };
    match image::load_from_memory_with_format(bytes, f) {
        Ok(img) => {
            let rgba = img.into_rgba8();
            Some((rgba.width(), rgba.height(), rgba.into_raw()))
        },
        Err(_) => None,
    }
}

/// The first image that decoded, in the order the files are looked for.
pub open spec fn first_decoded(ds: Seq<Option<(u32, u32, Seq<u8>)>>) -> Option<(u32, u32, Seq<u8>)>
    decreases ds.len(),
{
    if ds.len() == 0 {
        None
    } else if ds[0] is Some {
        ds[0]
    } else {
        first_decoded(ds.drop_first())
    }
}

/// The views of decoded images.
pub open spec fn decoded_views(v: Seq<Option<(u32, u32, Vec<u8>)>>) -> Seq<
    Option<(u32, u32, Seq<u8>)>,
> {
    v.map_values(|o: Option<(u32, u32, Vec<u8>)>| decoded_view(o))
}

/// Whether `r` is the icon made of `d`: that image, or the built-in icon
/// when there is none.
pub open spec fn icon_of(r: IconData, d: Option<(u32, u32, Seq<u8>)>) -> bool {
    match d {
        Some(t) => r.width == t.0 && r.height == t.1 && r.rgba@ == t.2,
        None => is_default_icon(r),
    }
}

proof fn lemma_first_decoded_skip(ds: Seq<Option<(u32, u32, Seq<u8>)>>, k: int)
    requires
        0 <= k <= ds.len(),
        forall|j: int| 0 <= j < k ==> ds[j] is None,
    ensures
        first_decoded(ds) == first_decoded(ds.skip(k)),
    decreases k,
{
    if k > 0 {
        lemma_first_decoded_skip(ds, k - 1);
        assert(ds.skip(k - 1).drop_first() =~= ds.skip(k));
    } else {
        assert(ds.skip(0) =~= ds);
    }
}

/// The icon from the decoded icon files, in the order they are looked for:
/// the first that decoded, else the built-in icon.
pub fn icon_from_decoded(decoded: Vec<Option<(u32, u32, Vec<u8>)>>) -> (r: IconData)
    ensures
        icon_of(r, first_decoded(decoded_views(decoded@))),
{
    let ghost ds = decoded_views(decoded@);
    let mut items = decoded;
    let mut i: usize = 0;
    while i < items.len()
        invariant
            ds == decoded_views(items@),
            ds == decoded_views(decoded@),
            i <= items@.len(),
            forall|j: int| 0 <= j < i ==> ds[j] is None,
        decreases items.len() - i,
    {
        if items[i].is_some() {
            proof {
                lemma_first_decoded_skip(ds, i as int);
                assert(ds.skip(i as int)[0] == ds[i as int]);
                assert(ds[i as int] == decoded_view(items@[i as int]));
            }
            let found = items.remove(i);
            match found {
                Some(t) => {
                    return IconData { rgba: t.2, width: t.0, height: t.1 };
                },
                None => {},
            }
        }
        i = i + 1;
    }
    proof {
        lemma_first_decoded_skip(ds, i as int);
    }
    make_default_icon()
}

/// What the `i`-th icon file decodes to: nothing when it could not be read.
pub open spec fn decode_at(files: Seq<Option<Vec<u8>>>, i: int) -> Option<(u32, u32, Seq<u8>)> {
    match files[i] {
        Some(b) => decoded_rgba(b@, icon_file_format(i)),
        None => None,
    }
}

/// Number of entries of `files` that name icon files.
pub open spec fn candidate_count(files: Seq<Option<Vec<u8>>>) -> nat {
    if files.len() < ICON_FILE_COUNT {
        files.len()
    } else {
        ICON_FILE_COUNT as nat
    }
}

/// The image the icon files give: the first that decodes.
pub open spec fn loaded_image(files: Seq<Option<Vec<u8>>>) -> Option<(u32, u32, Seq<u8>)> {
    first_decoded(Seq::new(candidate_count(files), |i: int| decode_at(files, i)))
}

/// The application icon from the contents of the icon files: entry `i` of
/// `files` holds the bytes of the file named by [`icon_file_names`] at `i`,
/// or nothing when that file is missing or unreadable. The first file that
/// decodes gives the icon; when none does, the built-in icon is used.
pub fn load_icon(files: Vec<Option<Vec<u8>>>) -> (r: IconData)
    ensures
        icon_of(r, loaded_image(files@)),
{
    let n: usize = if files.len() < ICON_FILE_COUNT {
        files.len()
    } else {
        ICON_FILE_COUNT
    };
    let ghost full = Seq::new(candidate_count(files@), |j: int| decode_at(files@, j));
    let mut decoded: Vec<Option<(u32, u32, Vec<u8>)>> = Vec::new();
    let mut i: usize = 0;
    let mut found = false;
    while i < n && !found
        invariant
            n == candidate_count(files@),
            full == Seq::new(candidate_count(files@), |j: int| decode_at(files@, j)),
            i <= n,
            decoded@.len() == i,
            forall|j: int| 0 <= j < i ==> decoded_view(#[trigger] decoded@[j]) == full[j],
            forall|j: int| 0 <= j < i - 1 ==> (#[trigger] decoded@[j]) is None,
            found <==> (i > 0 && decoded@[i - 1] is Some),
        decreases n - i,
    {
        let d = match &files[i] {
            Some(b) => decode_rgba(b.as_slice(), icon_format_at(i)),
            None => None,
        };
        found = d.is_some();
        decoded.push(d);
        i = i + 1;
    }
    proof {
        let ds = decoded_views(decoded@);
        assert forall|j: int| 0 <= j < i implies ds[j] == full[j] by {
            assert(decoded_view(decoded@[j]) == full[j]);
        }
        if found {
            let k = i - 1;
            assert forall|j: int| 0 <= j < k implies ds[j] is None by {
                assert(decoded@[j] is None);
            }
            assert forall|j: int| 0 <= j < k implies full[j] is None by {
                assert(ds[j] == full[j]);
            }
            lemma_first_decoded_skip(ds, k);
            lemma_first_decoded_skip(full, k);
            assert(ds.skip(k)[0] == ds[k]);
            assert(full.skip(k)[0] == full[k]);
        } else {
            assert(ds =~= full);
        }
    }
    icon_from_decoded(decoded)
}

} // verus!
