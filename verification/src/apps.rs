//! The app registry: each entry of `apps.json`, its accent color and icon
//! type, the icon bitmaps scaled for the menu, and what a launch hands to
//! the app's interpreter.

use vstd::prelude::*;

verus! {

/// An app's own icon, scaled to the three tile sizes the menu draws, as
/// row-major RGBA bytes.
#[derive(Clone)]
pub struct IconData {
    pub rgba_64: Vec<u8>,
    pub rgba_80: Vec<u8>,
    pub rgba_96: Vec<u8>,
}

/// One app of the registry: the fields of its `apps.json` entry, and, once
/// its script was found, the script's resolved path, the directory that
/// holds it (both as the operating system's raw path bytes) and the icon
/// found there.
#[derive(Clone)]
pub struct AppConfig {
    pub name: String,
    pub script: String,
    pub description: Option<String>,
    pub icon: Option<String>,
    pub color: Option<[u8; 3]>,
    pub resolved_script: Vec<u8>,
    pub resolved_dir: Vec<u8>,
    pub icon_data: Option<IconData>,
}

/// The accent color of an app that names none: Spotify green.
pub open spec fn default_accent() -> [u8; 3] {
    [29u8, 185u8, 84u8]
}

/// The icon type of an app that names none.
pub open spec fn default_icon_type() -> Seq<char> {
    seq!['d', 'e', 'f', 'a', 'u', 'l', 't']
}

/// The accent color of `app`: its `color` entry, or the default green.
pub open spec fn accent_of(app: AppConfig) -> [u8; 3] {
    match app.color {
        Some(c) => c,
        None => default_accent(),
    }
}

/// The icon type of `app`: its `icon` entry, or `default`.
pub open spec fn icon_type_of(app: AppConfig) -> Seq<char> {
    match app.icon {
        Some(s) => s@,
        None => default_icon_type(),
    }
}

impl AppConfig {
    /// The app's accent color: its `color` entry, or the default green.
    pub fn accent_color(&self) -> (c: [u8; 3])
        ensures
            c == accent_of(*self),
    {
        match self.color {
            Some(c) => c,
            None => [29u8, 185u8, 84u8],
        }
    }

    /// The app's icon type: its `icon` entry, or `default`.
    pub fn icon_type(&self) -> (t: &str)
        ensures
            t@ == icon_type_of(*self),
    {
        match &self.icon {
            Some(s) => s.as_str(),
            None => {
                proof {
                    reveal_strlit("default");
                }
                let t = "default";
                assert(t@ =~= default_icon_type());
                t
            },
        }
    }
}

/// Where an entry's script was found on disk (the script's path and its
/// directory, as raw path bytes), and the icon found beside it.
pub struct Resolved {
    pub script: Vec<u8>,
    pub dir: Vec<u8>,
    pub icon_data: Option<IconData>,
}

/// Entry `app` with its resolution filled in.
pub open spec fn resolved_app(app: AppConfig, r: Resolved) -> AppConfig {
    AppConfig { resolved_script: r.script, resolved_dir: r.dir, icon_data: r.icon_data, ..app }
}

/// The registry that `apps.json` yields: the entries whose script was
/// found, in file order, each with its resolution filled in.
pub open spec fn registry(entries: Seq<AppConfig>, found: Seq<Option<Resolved>>) -> Seq<AppConfig>
    decreases entries.len(),
{
    if entries.len() == 0 || found.len() == 0 {
        Seq::empty()
    } else {
        let rest = registry(entries.drop_last(), found.drop_last());
        match found.last() {
            Some(r) => rest.push(resolved_app(entries.last(), r)),
            None => rest,
        }
    }
}

/// Every app of the registry is an entry of `apps.json` whose script was
/// found, with that entry's name, script, description, icon type and color
/// and with its resolution's script path, directory and icon; the apps come
/// in file order, and every entry whose script was found is among them.
/// `source` gives, for each app, the index of its entry.
pub proof fn lemma_registry_apps_are_found_entries(
    entries: Seq<AppConfig>,
    found: Seq<Option<Resolved>>,
) -> (source: Seq<int>)
    requires
        entries.len() == found.len(),
    ensures
        source.len() == registry(entries, found).len(),
        forall|j: int, k: int| 0 <= j < k < source.len() ==> source[j] < source[k],
        forall|j: int|
            #![trigger source[j]]
            0 <= j < source.len() ==> {
                let i = source[j];
                let app = registry(entries, found)[j];
                &&& 0 <= i < entries.len()
                &&& found[i] is Some
                &&& app.name == entries[i].name
                &&& app.script == entries[i].script
                &&& app.description == entries[i].description
                &&& app.icon == entries[i].icon
                &&& app.color == entries[i].color
                &&& app.resolved_script == found[i]->0.script
                &&& app.resolved_dir == found[i]->0.dir
                &&& app.icon_data == found[i]->0.icon_data
            },
        forall|i: int|
            0 <= i < entries.len() && #[trigger] found[i] is Some ==> exists|j: int|
                0 <= j < source.len() && source[j] == i,
    decreases entries.len(),
{
    if entries.len() == 0 {
        Seq::empty()
    } else {
        let n = entries.len() - 1;
        let prev = lemma_registry_apps_are_found_entries(entries.drop_last(), found.drop_last());
        let rest = registry(entries.drop_last(), found.drop_last());
        assert forall|i: int| 0 <= i < n implies entries.drop_last()[i] == entries[i] && found.drop_last()[i]
            == found[i] by {}
        match found.last() {
            Some(r) => {
                let source = prev.push(n);
                assert(registry(entries, found) == rest.push(resolved_app(entries.last(), r)));
                assert forall|j: int|
                    #![trigger source[j]]
                    0 <= j < source.len() implies {
                    let i = source[j];
                    let app = registry(entries, found)[j];
                    &&& 0 <= i < entries.len()
                    &&& found[i] is Some
                    &&& app.name == entries[i].name
                    &&& app.script == entries[i].script
                    &&& app.description == entries[i].description
                    &&& app.icon == entries[i].icon
                    &&& app.color == entries[i].color
                    &&& app.resolved_script == found[i]->0.script
                    &&& app.resolved_dir == found[i]->0.dir
                    &&& app.icon_data == found[i]->0.icon_data
                } by {
                    if j < prev.len() {
                        assert(prev[j] == source[j]);
                    }
                }
                assert forall|i: int|
                    0 <= i < entries.len() && #[trigger] found[i] is Some implies exists|j: int|
                    0 <= j < source.len() && source[j] == i by {
                    if i < n {
                        assert(found.drop_last()[i] is Some);
                        let j = choose|j: int| 0 <= j < prev.len() && prev[j] == i;
                        assert(source[j] == i);
                    } else {
                        assert(source[prev.len() as int] == i);
                    }
                }
                assert forall|j: int, k: int| 0 <= j < k < source.len() implies source[j] < source[k] by {
                    if k < prev.len() {
                        assert(prev[j] < prev[k]);
                    } else {
                        assert(prev[j] < n);
                    }
                }
                source
            },
            None => {
                assert(registry(entries, found) == rest);
                assert forall|i: int|
                    0 <= i < entries.len() && #[trigger] found[i] is Some implies exists|j: int|
                    0 <= j < prev.len() && prev[j] == i by {
                    assert(i < n);
                    assert(found.drop_last()[i] is Some);
                }
                prev
            },
        }
    }
}

/// Builds the registry from the entries of `apps.json` and, for each entry
/// in the same order, where its script was found (`None` when it does not
/// exist): entries without a script are dropped, the others keep their
/// order and get their resolution.
pub fn build_registry(entries: Vec<AppConfig>, found: Vec<Option<Resolved>>) -> (apps: Vec<AppConfig>)
    requires
        entries.len() == found.len(),
    ensures
        apps@ == registry(entries@, found@),
{
    let mut entries = entries;
    let mut found = found;
    let ghost all_entries = entries@;
    let ghost all_found = found@;
    let mut rev: Vec<AppConfig> = Vec::new();
    let n = entries.len();
    // Take entries from the back, so that each can be moved out.
    while entries.len() > 0
        invariant
            entries.len() == found.len(),
            entries.len() <= n,
            all_entries.len() == n,
            all_found.len() == n,
            entries@ == all_entries.subrange(0, entries.len() as int),
            found@ == all_found.subrange(0, found.len() as int),
            registry(all_entries, all_found) == registry(entries@, found@) + rev@.reverse(),
        decreases entries.len(),
    {
        let ghost pre_e = entries@;
        let ghost pre_f = found@;
        let ghost pre_rev = rev@;
        let e = entries.pop().unwrap();
        let f = found.pop().unwrap();
        assert(pre_e.drop_last() =~= entries@);
        assert(pre_f.drop_last() =~= found@);
        match f {
            Some(r) => {
                let app = AppConfig {
                    resolved_script: r.script,
                    resolved_dir: r.dir,
                    icon_data: r.icon_data,
                    ..e
                };
                rev.push(app);
                assert(rev@.reverse() =~= seq![app] + pre_rev.reverse());
            },
            None => {},
        }
        assert(registry(all_entries, all_found) == registry(entries@, found@) + rev@.reverse());
    }
    let mut apps: Vec<AppConfig> = Vec::new();
    let ghost full = rev@.reverse();
    assert(registry(entries@, found@) =~= Seq::<AppConfig>::empty());
    while rev.len() > 0
        invariant
            full == apps@ + rev@.reverse(),
        decreases rev.len(),
    {
        let ghost pre_rev = rev@;
        let ghost pre_apps = apps@;
        let a = rev.pop().unwrap();
        apps.push(a);
        assert(pre_rev.reverse() =~= seq![a] + rev@.reverse());
        assert(apps@ + rev@.reverse() =~= pre_apps + pre_rev.reverse());
    }
    assert(apps@ =~= full);
    apps
}

/// Byte `c` (red, green, blue, alpha for 0 to 3) of pixel `(x, y)` of the
/// row-major RGBA image `s` that is `width` pixels wide.
pub open spec fn rgba_at(s: Seq<u8>, width: int, x: int, y: int, c: int) -> u8 {
    s[(y * width + x) * 4 + c]
}

/// Whether every row of the `size` x `size` RGBA image `s` equals its first.
pub open spec fn rows_all_alike(s: Seq<u8>, size: int) -> bool {
    forall|x: int, y: int, c: int|
        0 <= x < size && 0 <= y < size && 0 <= c < 4 ==> #[trigger] rgba_at(s, size, x, y, c)
            == rgba_at(s, size, x, 0, c)
}

/// Whether every column of the `size` x `size` RGBA image `s` equals its
/// first.
pub open spec fn columns_all_alike(s: Seq<u8>, size: int) -> bool {
    forall|x: int, y: int, c: int|
        0 <= x < size && 0 <= y < size && 0 <= c < 4 ==> #[trigger] rgba_at(s, size, x, y, c)
            == rgba_at(s, size, 0, y, c)
}

/// Scales the `w` x `h` RGBA image `rgba` to `size` x `size` pixels with
/// `image::imageops::resize` and its Lanczos3 filter, and returns the
/// scaled image's RGBA bytes.
///
/// Claimed of the outside code: the result holds exactly `size * size`
/// pixels; an image that already has that size comes back byte for byte;
/// an empty image (no width or no height) comes back as a transparent black
/// square. An image one pixel high comes back with all rows alike, and one
/// one pixel wide with all columns alike: the pass over the single source
/// row (or column) gives each output pixel that one source pixel with the
/// weight `w / w`, which is exactly one. The scaled pixel values themselves
/// are left unsaid: they come from `f32` arithmetic over the platform's
/// `sin`.
#[verifier::external_body]
fn resize_rgba(rgba: &Vec<u8>, w: u32, h: u32, size: u32) -> (out: Vec<u8>)
    requires
        rgba.len() == w as int * h as int * 4,
        1 <= size <= 4096,
    ensures
        out.len() == size as int * size as int * 4,
        w == size && h == size ==> out@ == rgba@,
        w == 0 || h == 0 ==> (forall|i: int| 0 <= i < out.len() ==> out@[i] == 0u8),
        h == 1 ==> rows_all_alike(out@, size as int),
        w == 1 ==> columns_all_alike(out@, size as int),
{
    let img = image::RgbaImage::from_raw(w, h, rgba.clone()).unwrap();
    image::imageops::resize(&img, size, size, image::imageops::FilterType::Lanczos3).into_raw()
}

/// A decoded image: `width` x `height` pixels, row-major, four bytes (RGBA)
/// per pixel.
pub struct DecodedImage {
    pub width: u32,
    pub height: u32,
    pub rgba: Vec<u8>,
}

/// Whether `img` holds exactly its four bytes per pixel.
pub open spec fn image_well_formed(img: DecodedImage) -> bool {
    img.rgba.len() == img.width as int * img.height as int * 4
}

/// The width and height of the image that the bytes `data` of an image
/// file decode to in the format that their magic bytes name, or `None` when
/// no built-in format's magic bytes match or the bytes do not decode.
pub uninterp spec fn decoded_size(data: Seq<u8>) -> Option<(u32, u32)>;

/// The width and height of the image that the bytes `data` decode to in the
/// format that the extension of `file_name` names, or `None` when the
/// extension names no format or the bytes do not decode in it.
pub uninterp spec fn decoded_size_by_extension(data: Seq<u8>, file_name: Seq<char>) -> Option<(
    u32,
    u32,
)>;

/// Decodes the bytes of an image file in the format that their magic bytes
/// name, as `image::load_from_memory` does: the format comes from
/// `image::guess_format` (the built-in table of magic bytes), the decoding
/// from `image::load_from_memory_with_format`, and the image is converted
/// to RGBA with `to_rgba8`; a failure comes back as the error's message.
/// Unlike `load_from_memory`, this path consults none of the format
/// detection or decoding hooks that code may register with the crate.
///
/// Claimed of the outside code: whether the bytes decode, and to an image of
/// which width and height, depends on the bytes alone (the magic-byte table,
/// the built-in decoders and their default limits read nothing else), and
/// `to_rgba8` keeps the size and gives four bytes per pixel. Which pixels
/// the image holds is left unsaid.
#[verifier::external_body]
fn load_from_memory_rgba(data: &[u8]) -> (r: Result<DecodedImage, String>)
    ensures
        r is Ok <==> decoded_size(data@) is Some,
        r matches Ok(img) ==> image_well_formed(img) && decoded_size(data@) == Some(
            (img.width, img.height),
        ),
{
    match image::guess_format(data) {
        Ok(format) => match image::load_from_memory_with_format(data, format) {
            Ok(img) => {
                let rgba = img.to_rgba8();
                Ok(DecodedImage { width: rgba.width(), height: rgba.height(), rgba: rgba.into_raw() })
            },
            Err(e) => Err(e.to_string()),
        },
        Err(e) => Err(e.to_string()),
    }
}

/// Decodes the bytes of the image file `file_name` in the format that its
/// extension names, as `image::open` does with a file's contents: the
/// format comes from `image::ImageFormat::from_path`, the decoding from
/// `image::load_from_memory_with_format`, and the image is converted to
/// RGBA with `to_rgba8`; a failure comes back as the error's message.
///
/// Claimed of the outside code: whether the bytes decode, and to an image of
/// which width and height, depends on the bytes and the file name alone,
/// and `to_rgba8` keeps the size and gives four bytes per pixel. Which
/// pixels the image holds is left unsaid.
#[verifier::external_body]
fn load_by_extension_rgba(data: &[u8], file_name: &str) -> (r: Result<DecodedImage, String>)
    ensures
        r is Ok <==> decoded_size_by_extension(data@, file_name@) is Some,
        r matches Ok(img) ==> image_well_formed(img) && decoded_size_by_extension(
            data@,
            file_name@,
        ) == Some((img.width, img.height)),
{
    match image::ImageFormat::from_path(file_name) {
        Ok(format) => match image::load_from_memory_with_format(data, format) {
            Ok(img) => {
                let rgba = img.to_rgba8();
                Ok(DecodedImage { width: rgba.width(), height: rgba.height(), rgba: rgba.into_raw() })
            },
            Err(e) => Err(e.to_string()),
        },
        Err(e) => Err(e.to_string()),
    }
}

impl IconData {
    /// Scales an app's decoded icon to the 64, 80 and 96 pixel squares that
    /// the menu tiles and the launch splash use, with `image`'s Lanczos3
    /// filter (see `resize_rgba` for what is known of the scaled pixels).
    pub fn from_image(img: &DecodedImage) -> (icon: IconData)
        requires
            image_well_formed(*img),
        ensures
            icon.rgba_64.len() == 64 * 64 * 4,
            icon.rgba_80.len() == 80 * 80 * 4,
            icon.rgba_96.len() == 96 * 96 * 4,
            img.width == 64 && img.height == 64 ==> icon.rgba_64@ == img.rgba@,
            img.width == 80 && img.height == 80 ==> icon.rgba_80@ == img.rgba@,
            img.width == 96 && img.height == 96 ==> icon.rgba_96@ == img.rgba@,
            img.width == 0 || img.height == 0 ==> {
                &&& forall|i: int| 0 <= i < icon.rgba_64.len() ==> icon.rgba_64@[i] == 0u8
                &&& forall|i: int| 0 <= i < icon.rgba_80.len() ==> icon.rgba_80@[i] == 0u8
                &&& forall|i: int| 0 <= i < icon.rgba_96.len() ==> icon.rgba_96@[i] == 0u8
            },
            img.height == 1 ==> {
                &&& rows_all_alike(icon.rgba_64@, 64)
                &&& rows_all_alike(icon.rgba_80@, 80)
                &&& rows_all_alike(icon.rgba_96@, 96)
            },
            img.width == 1 ==> {
                &&& columns_all_alike(icon.rgba_64@, 64)
                &&& columns_all_alike(icon.rgba_80@, 80)
                &&& columns_all_alike(icon.rgba_96@, 96)
            },
    {
        IconData {
            rgba_64: resize_rgba(&img.rgba, img.width, img.height, 64),
            rgba_80: resize_rgba(&img.rgba, img.width, img.height, 80),
            rgba_96: resize_rgba(&img.rgba, img.width, img.height, 96),
        }
    }

    /// Decodes an icon file's bytes, whatever its format, and scales it for
    /// the menu; returns the icon with the decoded image's width and
    /// height, or the decoder's error message when the bytes do not decode.
    pub fn decode(data: &[u8]) -> (r: Result<(IconData, u32, u32), String>)
        ensures
            r is Ok <==> decoded_size(data@) is Some,
            r matches Ok((icon, w, h)) ==> {
                &&& decoded_size(data@) == Some((w, h))
                &&& icon.rgba_64.len() == 64 * 64 * 4
                &&& icon.rgba_80.len() == 80 * 80 * 4
                &&& icon.rgba_96.len() == 96 * 96 * 4
            },
    {
        match load_from_memory_rgba(data) {
            Ok(img) => Ok((IconData::from_image(&img), img.width, img.height)),
            Err(e) => Err(e),
        }
    }
}

/// Whether the bytes of the icon file `file_name` decode: in the format its
/// extension names, or else in the one its magic bytes name.
pub open spec fn icon_file_decodes(data: Seq<u8>, file_name: Seq<char>) -> bool {
    decoded_size_by_extension(data, file_name) is Some || decoded_size(data) is Some
}

/// The width and height of the icon file `file_name` with bytes `data`, as
/// decoded by its extension when that works, by its content otherwise.
pub open spec fn icon_file_size(data: Seq<u8>, file_name: Seq<char>) -> (u32, u32) {
    match decoded_size_by_extension(data, file_name) {
        Some(size) => size,
        None => decoded_size(data)->0,
    }
}

/// The error of an icon file that decodes neither by its extension nor by
/// its content: the first decoder's message, `; content fallback: `, and
/// the second decoder's message.
pub open spec fn fallback_message(by_extension: Seq<char>, by_content: Seq<char>) -> Seq<char> {
    by_extension + seq![
        ';', ' ', 'c', 'o', 'n', 't', 'e', 'n', 't', ' ', 'f', 'a', 'l', 'l', 'b', 'a', 'c', 'k',
        ':', ' ',
    ] + by_content
}

/// Decodes the icon file `file_name` whose bytes are `data`: in the format
/// its extension names first, and, when that fails, in the format its
/// magic bytes name. Gives the icon scaled for the menu with the decoded
/// width and height, or both decoders' error messages.
pub fn decode_icon_file(data: &[u8], file_name: &str) -> (r: Result<(IconData, u32, u32), String>)
    ensures
        r is Ok <==> icon_file_decodes(data@, file_name@),
        r matches Ok((icon, w, h)) ==> {
            &&& (w, h) == icon_file_size(data@, file_name@)
            &&& icon.rgba_64.len() == 64 * 64 * 4
            &&& icon.rgba_80.len() == 80 * 80 * 4
            &&& icon.rgba_96.len() == 96 * 96 * 4
        },
        r matches Err(m) ==> exists|by_extension: Seq<char>, by_content: Seq<char>|
            m@ == #[trigger] fallback_message(by_extension, by_content),
{
    match load_by_extension_rgba(data, file_name) {
        Ok(img) => Ok((IconData::from_image(&img), img.width, img.height)),
        Err(by_extension) => match IconData::decode(data) {
            Ok(found) => Ok(found),
            Err(by_content) => {
                proof {
                    reveal_strlit("; content fallback: ");
                }
                let mut msg = by_extension;
                let ghost e1 = msg@;
                msg.append("; content fallback: ");
                msg.append(by_content.as_str());
                assert(msg@ =~= fallback_message(e1, by_content@));
                Err(msg)
            },
        },
    }
}

/// How many file names an app's icon is looked for under.
pub const ICON_FILE_COUNT: usize = 4;

/// The file names an app's icon is looked for under, beside its script, in
/// the order they are tried: `icon.ico`, `icon.png`, `icon.jpg`, `icon.bmp`.
pub open spec fn icon_file_name(i: int) -> Seq<char> {
    if i == 0 {
        seq!['i', 'c', 'o', 'n', '.', 'i', 'c', 'o']
    } else if i == 1 {
        seq!['i', 'c', 'o', 'n', '.', 'p', 'n', 'g']
    } else if i == 2 {
        seq!['i', 'c', 'o', 'n', '.', 'j', 'p', 'g']
    } else {
        seq!['i', 'c', 'o', 'n', '.', 'b', 'm', 'p']
    }
}

/// The `i`-th file name an app's icon is looked for under.
pub fn icon_file_name_at(i: usize) -> (name: &'static str)
    requires
        i < ICON_FILE_COUNT,
    ensures
        name@ == icon_file_name(i as int),
{
    proof {
        reveal_strlit("icon.ico");
        reveal_strlit("icon.png");
        reveal_strlit("icon.jpg");
        reveal_strlit("icon.bmp");
    }
    if i == 0 {
        let n = "icon.ico";
        assert(n@ =~= icon_file_name(0));
        n
    } else if i == 1 {
        let n = "icon.png";
        assert(n@ =~= icon_file_name(1));
        n
    } else if i == 2 {
        let n = "icon.jpg";
        assert(n@ =~= icon_file_name(2));
        n
    } else {
        let n = "icon.bmp";
        assert(n@ =~= icon_file_name(3));
        n
    }
}

/// Whether the icon can be loaded from the `i`-th candidate file: the file
/// exists with contents `files[i]`, and those decode.
pub open spec fn icon_loads(files: Seq<Option<Vec<u8>>>, i: int) -> bool {
    files[i] matches Some(data) && icon_file_decodes(data@, icon_file_name(i))
}

/// The outcome of looking for an app's icon: the index of the candidate
/// file it was loaded from with the icon and its decoded width and height,
/// and, for each candidate tried before it (or for every candidate, when
/// none loaded), the error of a file that failed to decode, or `None` for
/// a candidate that does not exist.
pub struct IconSearch {
    pub loaded: Option<(usize, IconData, u32, u32)>,
    pub errors: Vec<Option<String>>,
}

/// Looks for an app's icon among the candidate files, given for each file
/// name of `icon_file_name`, in order, the file's contents (`None` when it
/// is not a readable file): the icon comes from the first candidate that
/// decodes, and every existing candidate before it has its error reported.
pub fn load_icon(files: &Vec<Option<Vec<u8>>>) -> (r: IconSearch)
    requires
        files.len() == ICON_FILE_COUNT,
    ensures
        match r.loaded {
            Some((k, icon, w, h)) => {
                &&& k < files.len()
                &&& icon_loads(files@, k as int)
                &&& forall|j: int| 0 <= j < k ==> !icon_loads(files@, j)
                &&& (w, h) == icon_file_size(files@[k as int]->0@, icon_file_name(k as int))
                &&& icon.rgba_64.len() == 64 * 64 * 4
                &&& icon.rgba_80.len() == 80 * 80 * 4
                &&& icon.rgba_96.len() == 96 * 96 * 4
                &&& r.errors.len() == k
            },
            None => {
                &&& forall|j: int| 0 <= j < files.len() ==> !icon_loads(files@, j)
                &&& r.errors.len() == files.len()
            },
        },
        forall|j: int| 0 <= j < r.errors.len() ==> (#[trigger] r.errors@[j] is Some <==> files@[j] is Some),
{
    let mut errors: Vec<Option<String>> = Vec::new();
    let mut i: usize = 0;
    while i < files.len()
        invariant
            files.len() == ICON_FILE_COUNT,
            i <= files.len(),
            errors.len() == i,
            forall|j: int| 0 <= j < i ==> !icon_loads(files@, j),
            forall|j: int| 0 <= j < i ==> (#[trigger] errors@[j] is Some <==> files@[j] is Some),
        decreases files.len() - i,
    {
        match &files[i] {
            Some(data) => {
                let name = icon_file_name_at(i);
                match decode_icon_file(data.as_slice(), name) {
                    Ok((icon, w, h)) => {
                        return IconSearch { loaded: Some((i, icon, w, h)), errors };
                    },
                    Err(e) => {
                        errors.push(Some(e));
                    },
                }
            },
            None => {
                errors.push(None);
            },
        }
        i += 1;
    }
    IconSearch { loaded: None, errors }
}

/// The system interpreter, used when the app has no virtual environment:
/// the path `/usr/bin/python3`, as bytes.
pub open spec fn system_python() -> Seq<u8> {
    seq![47u8, 117, 115, 114, 47, 98, 105, 110, 47, 112, 121, 116, 104, 111, 110, 51]
}

/// The interpreter that runs an app, as raw path bytes: the
/// `venv/bin/python3` of its directory (`venv_python`) when that file
/// exists, `/usr/bin/python3` otherwise.
pub fn interpreter(venv_python: Vec<u8>, venv_exists: bool) -> (python: Vec<u8>)
    ensures
        python@ == if venv_exists {
            venv_python@
        } else {
            system_python()
        },
{
    if venv_exists {
        venv_python
    } else {
        let s: Vec<u8> = vec![47u8, 117, 115, 114, 47, 98, 105, 110, 47, 112, 121, 116, 104, 111, 110, 51];
        assert(s@ =~= system_python());
        s
    }
}

/// The `PYTHONPATH` an app runs with: the launcher's `settings` directory,
/// in front of the launcher's own `PYTHONPATH` when it has one.
pub fn python_path(settings_dir: &str, existing: Option<&str>) -> (path: String)
    ensures
        path@ == match existing {
            Some(e) => settings_dir@ + seq![':'] + e@,
            None => settings_dir@,
        },
{
    let mut path = String::from_str(settings_dir);
    match existing {
        Some(e) => {
            proof {
                reveal_strlit(":");
            }
            path.append(":");
            path.append(e);
        },
        None => {},
    }
    path
}

} // verus!
