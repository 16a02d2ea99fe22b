//! Image previews: which requests are served, which resolution is used, and the
//! names of the cached preview files.
use vstd::prelude::*;
use vstd::string::StringSliceAdditionalSpecFns;
use vstd::utf8::{decode_utf8, encode_utf8, is_char_boundary};
use crate::auth::{hash_str_to_hex, hex_lower, sha3_256_spec};
use crate::fs::path::{name_extension_of, file_name_of, path_extension, path_push, push_path};
use crate::text::{chars_eq, chars_of, contains_chars, contains_seq, decimal, parse_unsigned, parse_unsigned_exec, push_decimal, push_str, string_of};

verus! {

/// The smallest resolution a preview may be asked for.
pub const ALLOWED_PREVIEW_RES_START: u32 = 100;

/// The largest resolution a preview may be asked for.
pub const ALLOWED_PREVIEW_RES_END: u32 = 2048;

/// The resolution used when none is asked for and none is cached.
pub const DEFAULT_PREVIEW_RES: u32 = 256;

/// What a preview request is answered with.
#[derive(Debug)]
pub enum ImagePreviewResponse {
    /// 200: the cached preview file at this path.
    Preview(String),
    /// 403
    WrongSize(&'static str),
    /// 406
    NoImage(&'static str),
    /// 404
    NotFound,
    /// 500
    ServerError,
}

/// The file extensions previews are made for: `png`, `jpeg`, `jpg` (case matters).
pub open spec fn allowed_format(ext: Seq<char>) -> bool {
    ext == "png"@ || ext == "jpeg"@ || ext == "jpg"@
}

/// `ext` is one of the image formats previews are made for.
pub fn is_allowed_format(ext: &[char]) -> (r: bool)
    ensures
        r == allowed_format(ext@),
{
    proof {
        reveal_strlit("png");
        reveal_strlit("jpeg");
        reveal_strlit("jpg");
    }
    let png: [char; 3] = ['p', 'n', 'g'];
    let jpeg: [char; 4] = ['j', 'p', 'e', 'g'];
    let jpg: [char; 3] = ['j', 'p', 'g'];
    assert(png@ =~= "png"@);
    assert(jpeg@ =~= "jpeg"@);
    assert(jpg@ =~= "jpg"@);
    chars_eq(ext, png.as_slice()) || chars_eq(ext, jpeg.as_slice()) || chars_eq(ext, jpg.as_slice())
}

/// The file at path `p` has an image extension previews are made for.
pub open spec fn preview_format_ok(p: Seq<char>) -> bool {
    match path_extension(p) {
        Some(e) => allowed_format(e),
        None => false,
    }
}

/// The outcome of checking a preview request (see `check_preview_request`).
pub open spec fn check_preview_spec(is_file: bool, abs_path: Seq<char>, resolution: Option<u32>) -> Result<
    (),
    ImagePreviewResponse,
> {
    if !is_file {
        Err(ImagePreviewResponse::NotFound)
    } else if !preview_format_ok(abs_path) {
        Err(ImagePreviewResponse::NoImage("File needs to be an image (.png)"))
    } else {
        match resolution {
            Some(r) if !(ALLOWED_PREVIEW_RES_START <= r <= ALLOWED_PREVIEW_RES_END) => Err(
                ImagePreviewResponse::WrongSize("Allowed res >= 100 & <= 2048"),
            ),
            _ => Ok(()),
        }
    }
}

/// Checks a preview request for the file at `abs_path` (`is_file`: it is an existing
/// regular file) before anything is drawn: `NotFound` when it is no file, `NoImage`
/// when its extension is not `png`, `jpeg` or `jpg`, `WrongSize` when a resolution is
/// asked for outside `100..=2048`.
pub fn check_preview_request(is_file: bool, abs_path: &str, resolution: Option<u32>) -> (res: Result<
    (),
    ImagePreviewResponse,
>)
    ensures
        res == check_preview_spec(is_file, abs_path@, resolution),
{
    if !is_file {
        return Err(ImagePreviewResponse::NotFound);
    }
    let pc = chars_of(abs_path);
    let allowed = match file_name_of(pc.as_slice()) {
        Some(name) => match name_extension_of(name.as_slice()) {
            Some(e) => is_allowed_format(e.as_slice()),
            None => false,
        },
        None => false,
    };
    if !allowed {
        return Err(ImagePreviewResponse::NoImage("File needs to be an image (.png)"));
    }
    match resolution {
        Some(r) => {
            if !(ALLOWED_PREVIEW_RES_START <= r && r <= ALLOWED_PREVIEW_RES_END) {
                return Err(ImagePreviewResponse::WrongSize("Allowed res >= 100 & <= 2048"));
            }
        },
        None => {},
    }
    Ok(())
}

/// The text of a cached file name before its first `_` (the whole name if it has none).
pub open spec fn before_underscore(name: Seq<char>) -> Seq<char>
    decreases name.len(),
{
    if name.len() == 0 {
        name
    } else if name[0] == '_' {
        Seq::<char>::empty()
    } else {
        seq![name[0]] + before_underscore(name.drop_first())
    }
}

/// The resolution a cached file name starts with (its text before the first `_`, read
/// as a `u32`).
pub open spec fn cached_resolution(name: Seq<char>) -> Option<u32> {
    match parse_unsigned(before_underscore(name), 10, u32::MAX as nat) {
        Some(v) => Some(v as u32),
        None => None,
    }
}

/// `a > b` for optional numbers, a missing number being the smallest.
pub open spec fn opt_greater(a: Option<u32>, b: Option<u32>) -> bool {
    match (a, b) {
        (Some(x), Some(y)) => x > y,
        (Some(_), None) => true,
        _ => false,
    }
}

/// The highest resolution among the cached files of one image: the names that contain
/// `hashed_path` and start with a resolution.
pub open spec fn highest_cached_spec(names: Seq<Seq<char>>, hashed_path: Seq<char>) -> Option<u32>
    decreases names.len(),
{
    if names.len() == 0 {
        None
    } else {
        let h = highest_cached_spec(names.drop_last(), hashed_path);
        let r = cached_resolution(names.last());
        if contains_seq(names.last(), hashed_path) && opt_greater(r, h) {
            r
        } else {
            h
        }
    }
}

/// The resolution at the start of a cached file name.
pub fn cached_resolution_of(name: &[char]) -> (res: Option<u32>)
    ensures
        res == cached_resolution(name@),
{
    let mut i: usize = 0;
    assert(name@.skip(0) =~= name@);
    assert(name@.take(0) + before_underscore(name@.skip(0)) =~= before_underscore(name@));
    while i < name.len()
        invariant
            i <= name.len(),
            forall|j: int| 0 <= j < i ==> name@[j] != '_',
            before_underscore(name@) == name@.take(i as int) + before_underscore(name@.skip(i as int)),
        ensures
            i < name.len() ==> name@[i as int] == '_',
            before_underscore(name@) == name@.take(i as int) + before_underscore(name@.skip(i as int)),
        decreases name.len() - i,
    {
        if name[i] == '_' {
            break;
        }
        let ghost rest = name@.skip(i as int);
        assert(rest.drop_first() =~= name@.skip(i + 1));
        assert(rest[0] == name@[i as int]);
        assert(before_underscore(rest) == seq![name@[i as int]] + before_underscore(rest.drop_first()));
        assert(name@.take(i + 1) =~= name@.take(i as int) + seq![name@[i as int]]);
        assert(name@.take(i as int) + (seq![name@[i as int]] + before_underscore(name@.skip(i + 1)))
            =~= name@.take(i + 1) + before_underscore(name@.skip(i + 1)));
        i += 1;
    }
    proof {
        if i == name.len() {
            assert(name@.skip(i as int) =~= Seq::<char>::empty());
        } else {
            assert(name@.skip(i as int)[0] == '_');
        }
        assert(name@.take(i as int) + Seq::<char>::empty() =~= name@.take(i as int));
    }
    assert(before_underscore(name@) =~= name@.take(i as int));
    let mut head: Vec<char> = Vec::new();
    let mut k: usize = 0;
    while k < i
        invariant
            k <= i <= name.len(),
            head@ == name@.take(k as int),
        decreases i - k,
    {
        head.push(name[k]);
        k += 1;
        assert(head@ =~= name@.take(k as int));
    }
    match parse_unsigned_exec(head.as_slice(), 10, 0xffff_ffff) {
        Some(v) => Some(v as u32),
        None => None,
    }
}

/// The highest resolution already cached for the image whose path hashes to
/// `hashed_path`, from the names of the files in the preview cache.
pub fn get_highest_cached(names: &Vec<String>, hashed_path: &str) -> (res: Option<u32>)
    ensures
        res == highest_cached_spec(names@.map_values(|n: String| n@), hashed_path@),
{
    let hc = chars_of(hashed_path);
    let ghost views = names@.map_values(|n: String| n@);
    let mut highest: Option<u32> = None;
    let mut i: usize = 0;
    while i < names.len()
        invariant
            i <= names.len(),
            hc@ == hashed_path@,
            views == names@.map_values(|n: String| n@),
            highest == highest_cached_spec(views.take(i as int), hashed_path@),
        decreases names.len() - i,
    {
        assert(views.take(i + 1).drop_last() =~= views.take(i as int));
        let nc = chars_of(names[i].as_str());
        if contains_chars(nc.as_slice(), hc.as_slice()) {
            let r = cached_resolution_of(nc.as_slice());
            let greater = match (r, highest) {
                (Some(x), Some(y)) => x > y,
                (Some(_), None) => true,
                _ => false,
            };
            if greater {
                highest = r;
            }
        }
        i += 1;
    }
    assert(views.take(names@.len() as int) =~= views);
    highest
}

/// The highest cached resolution is one of the cached files' resolutions, and no
/// matching cached file has a higher one.
pub proof fn lemma_highest_cached_is_max(names: Seq<Seq<char>>, hashed_path: Seq<char>)
    ensures
        forall|i: int|
            0 <= i < names.len() && contains_seq(names[i], hashed_path) && #[trigger] cached_resolution(
                names[i],
            ) is Some ==> highest_cached_spec(names, hashed_path) is Some && cached_resolution(
                names[i],
            )->0 <= highest_cached_spec(names, hashed_path)->0,
        highest_cached_spec(names, hashed_path) matches Some(h) ==> exists|i: int|
            0 <= i < names.len() && contains_seq(names[i], hashed_path) && #[trigger] cached_resolution(
                names[i],
            ) == Some(h),
    decreases names.len(),
{
    if names.len() > 0 {
        let init = names.drop_last();
        lemma_highest_cached_is_max(init, hashed_path);
        assert forall|i: int|
            0 <= i < names.len() && contains_seq(names[i], hashed_path) && #[trigger] cached_resolution(
                names[i],
            ) is Some implies highest_cached_spec(names, hashed_path) is Some && cached_resolution(
            names[i],
        )->0 <= highest_cached_spec(names, hashed_path)->0 by {
            if i < names.len() - 1 {
                assert(names[i] == init[i]);
            }
        }
        if highest_cached_spec(names, hashed_path) is Some {
            let h = highest_cached_spec(names, hashed_path)->0;
            if highest_cached_spec(names, hashed_path) == highest_cached_spec(init, hashed_path) {
                let i = choose|i: int|
                    0 <= i < init.len() && contains_seq(init[i], hashed_path) && #[trigger] cached_resolution(
                        init[i],
                    ) == Some(h);
                assert(names[i] == init[i]);
            } else {
                assert(cached_resolution(names[names.len() - 1]) == Some(h));
            }
        }
    }
}

/// The resolution a preview is drawn in: the one asked for, else the highest cached,
/// else 256.
pub fn preview_resolution(resolution: Option<u32>, highest_cached: Option<u32>) -> (res: u32)
    ensures
        res == (match resolution {
            Some(r) => r,
            None => match highest_cached {
                Some(h) => h,
                None => DEFAULT_PREVIEW_RES,
            },
        }),
{
    match resolution {
        Some(r) => r,
        None => match highest_cached {
            Some(h) => h,
            None => DEFAULT_PREVIEW_RES,
        },
    }
}

/// The name of the cached preview of resolution `res` of the image whose path hashes to
/// `hashed_path`: `<res>_<first 30 bytes of the hash>.jpg`.
pub open spec fn cached_file_name_spec(res: u32, hashed_path: Seq<char>) -> Seq<char> {
    decimal(res as nat) + seq!['_'] + decode_utf8(encode_utf8(hashed_path).take(30)) + ".jpg"@
}

/// The name of a cached preview file.
pub fn cached_file_name(res: u32, hashed_path: &str) -> (name: String)
    requires
        encode_utf8(hashed_path@).len() >= 30,
        is_char_boundary(encode_utf8(hashed_path@), 30),
    ensures
        name@ == cached_file_name_spec(res, hashed_path@),
{
    let (head, _rest) = hashed_path.split_at(30);
    proof {
        vstd::utf8::encode_utf8_decode_utf8(head@);
        assert(head.spec_bytes() =~= encode_utf8(hashed_path@).take(30));
    }
    let mut name = String::new();
    push_decimal(&mut name, res as u64);
    name.push('_');
    push_str(&mut name, head);
    push_str(&mut name, ".jpg");
    assert(name@ =~= cached_file_name_spec(res, hashed_path@));
    name
}

/// Large previews are scaled with nearest-neighbour sampling, small ones as thumbnails.
pub fn use_nearest_filter(res: u32) -> (r: bool)
    ensures
        r == (res >= 500),
{
    res >= 500
}

/// Whether a cached preview must be drawn again: when the modification times of the
/// image and of the cache (nanoseconds since the UNIX epoch) are both known, exactly
/// when the image is newer; when either is unknown, always.
pub fn is_deprecated_cache(src_modified: Option<i128>, cache_modified: Option<i128>) -> (r: bool)
    ensures
        r == (match (src_modified, cache_modified) {
            (Some(s), Some(c)) => s > c,
            _ => true,
        }),
{
    match (src_modified, cache_modified) {
        (Some(s), Some(c)) => s > c,
        _ => true,
    }
}

/// The folder previews are cached in: `what-cloud/previews` below the system's
/// temporary folder `temp_dir`.
pub fn cache_path(temp_dir: &str) -> (res: String)
    ensures
        res@ == path_push(path_push(temp_dir@, "what-cloud"@), "previews"@),
{
    let mut dir = string_of(chars_of(temp_dir).as_slice());
    push_path(&mut dir, "what-cloud");
    push_path(&mut dir, "previews");
    dir
}

/// In the UTF-8 encoding of an ASCII text every index up to its length is a
/// character boundary.
proof fn lemma_ascii_char_boundary(chars: Seq<char>, i: int)
    requires
        vstd::utf8::is_ascii_chars(chars),
        0 <= i <= chars.len(),
    ensures
        encode_utf8(chars).len() == chars.len(),
        is_char_boundary(encode_utf8(chars), i),
{
    vstd::utf8::is_ascii_chars_encode_utf8(chars);
    vstd::utf8::encode_utf8_valid_utf8(chars);
    let bytes = encode_utf8(chars);
    if i == chars.len() {
        vstd::utf8::is_char_boundary_start_end_of_seq(bytes);
    } else {
        assert(chars[i] as u8 == bytes[i]);
        vstd::utf8::is_ascii_chars_nat_bound(chars);
        assert((chars[i] as nat) < 128);
        vstd::utf8::is_char_boundary_iff_not_is_continuation_byte(bytes, i);
    }
}

/// The resolution of the preview of the image at `abs_path`: the one asked for, else the
/// highest one cached for the hash of its path (SHA3-256, hex) among the names in
/// `listing` (the cache folder's file names; `None` when it could not be read), else
/// `DEFAULT_PREVIEW_RES`.
pub open spec fn preview_res_spec(abs_path: Seq<char>, resolution: Option<u32>, listing: Option<Seq<Seq<char>>>) -> u32 {
    let hashed = hex_lower(sha3_256_spec(encode_utf8(abs_path)));
    match resolution {
        Some(r) => r,
        None => match listing {
            Some(names) => match highest_cached_spec(names, hashed) {
                Some(h) => h,
                None => DEFAULT_PREVIEW_RES,
            },
            None => DEFAULT_PREVIEW_RES,
        },
    }
}

/// The resolution of the preview of the image at `abs_path` and the file name it is
/// cached under (`<resolution>_<first 30 hex digits of the path hash>.jpg`); `listing`
/// is only looked at when no resolution is asked for.
pub fn preview_file_name(abs_path: &str, resolution: Option<u32>, listing: Option<Vec<String>>) -> (res: (u32, String))
    ensures
        ({
            let names = match listing {
                Some(v) => Some(v@.map_values(|n: String| n@)),
                None => None,
            };
            let r = preview_res_spec(abs_path@, resolution, names);
            &&& res.0 == r
            &&& res.1@ == cached_file_name_spec(r, hex_lower(sha3_256_spec(encode_utf8(abs_path@))))
        }),
{
    let hashed = hash_str_to_hex(abs_path);
    let highest = match resolution {
        Some(_) => None,
        None => match &listing {
            Some(names) => get_highest_cached(names, hashed.as_str()),
            None => None,
        },
    };
    let r = preview_resolution(resolution, highest);
    proof {
        lemma_ascii_char_boundary(hashed@, 30);
    }
    (r, cached_file_name(r, hashed.as_str()))
}

} // verus!
