//! Colour classes for files: chosen by extension, with a per-name colour
//! for everything else.  The viewer maps each class to its palette.

use vstd::prelude::*;
use std::hash::BuildHasher;
use crate::paths::{extension_of, file_name_of, same_text, spec_extension, spec_file_name};

verus! {

/// What a node is coloured as.  `Hashed` carries the red, green and blue
/// bytes derived from the name.
#[derive(Clone, Copy, Debug, PartialEq, Eq, Structural)]
pub enum ColorClass {
    Directory,
    Video,
    Audio,
    Media,
    Image,
    Archive,
    Source,
    Executable,
    Hashed(u8, u8, u8),
}

/// The result of `str::to_lowercase` on `s`.
pub uninterp spec fn lowercase_of(s: Seq<char>) -> Seq<char>;

/// The 64-bit hash that a fresh `std::collections::hash_map::DefaultHasher`
/// gives after hashing the string `s`.
pub uninterp spec fn default_hash_of(s: Seq<char>) -> u64;

/// `str::to_lowercase`: claims that the result is the named lowercase form
/// of `s` (a function of `s` alone).
#[verifier::external_body]
fn lowercase(s: &str) -> (r: String)
    ensures
        r@ == lowercase_of(s@),
{
    s.to_lowercase()
}

/// `BuildHasher::hash_one` with `BuildHasherDefault<DefaultHasher>`, which
/// hashes `s` into a fresh `DefaultHasher::new()` and returns `finish()`.
/// Claims: the result is the named hash of `s` (the same for equal strings).
#[verifier::external_body]
pub(crate) fn default_hash(s: &str) -> (h: u64)
    ensures
        h == default_hash_of(s@),
{
    std::hash::BuildHasherDefault::<std::collections::hash_map::DefaultHasher>::default().hash_one(s)
}

/// The colour bytes derived from a 64-bit name hash.
pub open spec fn spec_hashed_from_u64(h: u64) -> ColorClass {
    ColorClass::Hashed(
        (((h >> 16u64) % 160) + 80) as u8,
        (((h >> 8u64) % 160) + 80) as u8,
        ((h % 160) + 80) as u8,
    )
}

/// The extension text that classification looks at ("" when there is none).
pub open spec fn extension_or_empty(s: Seq<char>) -> Seq<char> {
    match spec_extension(s) {
        Some(e) => e,
        None => Seq::empty(),
    }
}

/// The full viewer's class for a lowercased extension `e`, when the
/// extension decides it.
pub open spec fn full_extension_class(e: Seq<char>) -> Option<ColorClass> {
    if e == "mp4"@ || e == "mkv"@ || e == "avi"@ || e == "mov"@ {
        Some(ColorClass::Video)
    } else if e == "mp3"@ || e == "flac"@ || e == "wav"@ || e == "ogg"@ {
        Some(ColorClass::Audio)
    } else if e == "png"@ || e == "jpg"@ || e == "jpeg"@ || e == "webp"@ || e == "gif"@ {
        Some(ColorClass::Image)
    } else if e == "zip"@ || e == "rar"@ || e == "7z"@ || e == "tar"@ || e == "gz"@ {
        Some(ColorClass::Archive)
    } else if e == "rs"@ || e == "cpp"@ || e == "c"@ || e == "h"@ || e == "py"@ || e == "js"@
        || e == "ts"@ || e == "txt"@ || e == "md"@ {
        Some(ColorClass::Source)
    } else if e == "exe"@ || e == "dll"@ || e == "so"@ || e == "bin"@ {
        Some(ColorClass::Executable)
    } else {
        None
    }
}

/// The class of a file in the full viewer: by the lowercased extension of
/// `name`, otherwise a colour from the name's hash.
pub open spec fn spec_file_color(name: Seq<char>) -> ColorClass {
    match full_extension_class(lowercase_of(extension_or_empty(name))) {
        Some(c) => c,
        None => spec_hashed_from_u64(default_hash_of(name)),
    }
}

fn extension_text(name: &str) -> (r: String)
    ensures
        r@ == extension_or_empty(name@),
{
    match extension_of(name) {
        Some(e) => e,
        None => String::new(),
    }
}

/// The full viewer's class for the lowercased extension `e` (see
/// [`full_extension_class`]).
pub fn extension_class(e: &str) -> (r: Option<ColorClass>)
    ensures
        r == full_extension_class(e@),
{
    if same_text(e, "mp4") || same_text(e, "mkv") || same_text(e, "avi") || same_text(e, "mov") {
        Some(ColorClass::Video)
    } else if same_text(e, "mp3") || same_text(e, "flac") || same_text(e, "wav") || same_text(e, "ogg") {
        Some(ColorClass::Audio)
    } else if same_text(e, "png") || same_text(e, "jpg") || same_text(e, "jpeg") || same_text(e, "webp")
        || same_text(e, "gif") {
        Some(ColorClass::Image)
    } else if same_text(e, "zip") || same_text(e, "rar") || same_text(e, "7z") || same_text(e, "tar")
        || same_text(e, "gz") {
        Some(ColorClass::Archive)
    } else if same_text(e, "rs") || same_text(e, "cpp") || same_text(e, "c") || same_text(e, "h")
        || same_text(e, "py") || same_text(e, "js") || same_text(e, "ts") || same_text(e, "txt")
        || same_text(e, "md") {
        Some(ColorClass::Source)
    } else if same_text(e, "exe") || same_text(e, "dll") || same_text(e, "so") || same_text(e, "bin") {
        Some(ColorClass::Executable)
    } else {
        None
    }
}

/// The colour bytes the full viewer derives from a 64-bit name hash.
pub fn hashed_color(h: u64) -> (c: ColorClass)
    ensures
        c == spec_hashed_from_u64(h),
{
    ColorClass::Hashed(((h >> 16) % 160 + 80) as u8, ((h >> 8) % 160 + 80) as u8, (h % 160 + 80) as u8)
}

/// Colour class of a file named `name` in the full viewer.
pub fn get_color_for_filename(name: &str) -> (c: ColorClass)
    ensures
        c == spec_file_color(name@),
{
    let ext = extension_text(name);
    let low = lowercase(ext.as_str());
    match extension_class(low.as_str()) {
        Some(c) => c,
        None => hashed_color(default_hash(name)),
    }
}

/// The sum of the UTF-8 bytes of `bytes`, wrapping at 2^32.
pub open spec fn byte_sum(bytes: Seq<u8>) -> nat
    decreases bytes.len(),
{
    if bytes.len() == 0 {
        0
    } else {
        ((byte_sum(bytes.drop_last()) + bytes.last()) % 0x1_0000_0000) as nat
    }
}

/// The basic viewer's name hash: the UTF-8 bytes of `s` added up, wrapping.
pub open spec fn spec_name_hash(s: Seq<char>) -> nat {
    byte_sum(vstd::utf8::encode_utf8(s))
}

/// The basic viewer's name hash of `name`.
pub fn name_hash(name: &str) -> (h: u32)
    ensures
        h == spec_name_hash(name@),
{
    let bytes = name.as_bytes();
    let n = bytes.len();
    let mut h: u32 = 0;
    let mut i: usize = 0;
    while i < n
        invariant
            n == bytes@.len(),
            bytes@ == vstd::utf8::encode_utf8(name@),
            i <= n,
            h == byte_sum(bytes@.take(i as int)),
        decreases n - i,
    {
        assert(bytes@.take(i + 1).drop_last() =~= bytes@.take(i as int));
        h = h.wrapping_add(bytes[i] as u32);
        i = i + 1;
    }
    assert(bytes@.take(n as int) =~= bytes@);
    h
}

/// The basic viewer's colour bytes from a name hash.
pub open spec fn spec_hashed_from_u32(h: nat) -> ColorClass {
    ColorClass::Hashed(
        ((h * 37) % 160 + 80) as u8,
        ((h * 59) % 160 + 80) as u8,
        ((h * 83) % 160 + 80) as u8,
    )
}

/// Whether the basic viewer's colour arithmetic stays within 32 bits for a
/// name hash `h` (beyond that it overflows).
pub open spec fn hash_fits(h: nat) -> bool {
    h * 83 <= 0xffff_ffff
}

/// Whether the basic viewer's name hash of `name` is small enough for
/// [`hash_fits`].
pub fn name_hash_fits(name: &str) -> (r: bool)
    ensures
        r == hash_fits(spec_name_hash(name@)),
{
    (name_hash(name) as u64) * 83 <= 0xffff_ffff
}

fn hashed_from_u32(h: u32) -> (c: ColorClass)
    requires
        hash_fits(h as nat),
    ensures
        c == spec_hashed_from_u32(h as nat),
{
    ColorClass::Hashed((h * 37 % 160 + 80) as u8, (h * 59 % 160 + 80) as u8, (h * 83 % 160 + 80) as u8)
}

/// The basic viewer's class for the extension text `e`, when the extension
/// decides it; `ts_is_source` says whether "ts" counts as source (it does
/// in the path-keyed viewer only).
pub open spec fn basic_extension_class(e: Seq<char>, ts_is_source: bool) -> Option<ColorClass> {
    if e == "rs"@ || e == "c"@ || e == "cpp"@ || e == "py"@ || e == "js"@ || e == "txt"@ || e == "md"@
        || (ts_is_source && e == "ts"@) {
        Some(ColorClass::Source)
    } else if e == "png"@ || e == "jpg"@ || e == "jpeg"@ || e == "svg"@ || e == "webp"@ {
        Some(ColorClass::Image)
    } else if e == "mp4"@ || e == "mkv"@ || e == "mov"@ || e == "mp3"@ || e == "flac"@ {
        Some(ColorClass::Media)
    } else if e == "zip"@ || e == "tar"@ || e == "gz"@ || e == "7z"@ {
        Some(ColorClass::Archive)
    } else {
        None
    }
}

fn basic_class_of(e: &str, ts_is_source: bool) -> (r: Option<ColorClass>)
    ensures
        r == basic_extension_class(e@, ts_is_source),
{
    if same_text(e, "rs") || same_text(e, "c") || same_text(e, "cpp") || same_text(e, "py")
        || same_text(e, "js") || same_text(e, "txt") || same_text(e, "md") || (ts_is_source && same_text(e, "ts")) {
        Some(ColorClass::Source)
    } else if same_text(e, "png") || same_text(e, "jpg") || same_text(e, "jpeg") || same_text(e, "svg")
        || same_text(e, "webp") {
        Some(ColorClass::Image)
    } else if same_text(e, "mp4") || same_text(e, "mkv") || same_text(e, "mov") || same_text(e, "mp3")
        || same_text(e, "flac") {
        Some(ColorClass::Media)
    } else if same_text(e, "zip") || same_text(e, "tar") || same_text(e, "gz") || same_text(e, "7z") {
        Some(ColorClass::Archive)
    } else {
        None
    }
}

/// Class of a file named `name` in the basic viewer: by its extension,
/// otherwise a colour from the name's hash.
pub open spec fn spec_color_for_name(name: Seq<char>) -> ColorClass {
    match basic_extension_class(extension_or_empty(name), false) {
        Some(c) => c,
        None => spec_hashed_from_u32(spec_name_hash(name)),
    }
}

/// Whether the basic viewer can colour a file named `name` without
/// overflowing: the extension decides, or the hash is small enough.
pub open spec fn name_colourable(name: Seq<char>) -> bool {
    basic_extension_class(extension_or_empty(name), false) is Some || hash_fits(spec_name_hash(name))
}

/// Whether the basic viewer can colour a file named `name` (see
/// [`name_colourable`]).
pub fn can_color_name(name: &str) -> (r: bool)
    ensures
        r == name_colourable(name@),
{
    let ext = extension_text(name);
    basic_class_of(ext.as_str(), false).is_some() || name_hash_fits(name)
}

/// Colour class of a file named `name` in the basic viewer.
pub fn color_for_name(name: &str) -> (c: ColorClass)
    requires
        name_colourable(name@),
    ensures
        c == spec_color_for_name(name@),
{
    let ext = extension_text(name);
    match basic_class_of(ext.as_str(), false) {
        Some(c) => c,
        None => hashed_from_u32(name_hash(name)),
    }
}

/// The file-name text that the path-keyed viewer hashes ("" when the path
/// has no file name).
pub open spec fn file_name_or_empty(s: Seq<char>) -> Seq<char> {
    match spec_file_name(s) {
        Some(f) => f,
        None => Seq::empty(),
    }
}

/// Class of a file at `path` in the path-keyed basic viewer: by the
/// extension, otherwise a colour from the hash of its file name.
pub open spec fn spec_color_for_path(path: Seq<char>) -> ColorClass {
    match basic_extension_class(extension_or_empty(path), true) {
        Some(c) => c,
        None => spec_hashed_from_u32(spec_name_hash(file_name_or_empty(path))),
    }
}

/// Whether the path-keyed viewer can colour a file at `path` without
/// overflowing: the extension decides, or the file name's hash is small
/// enough.
pub open spec fn path_colourable(path: Seq<char>) -> bool {
    basic_extension_class(extension_or_empty(path), true) is Some || hash_fits(
        spec_name_hash(file_name_or_empty(path)),
    )
}

fn file_name_text(path: &str) -> (r: String)
    ensures
        r@ == file_name_or_empty(path@),
{
    match file_name_of(path) {
        Some(f) => f,
        None => String::new(),
    }
}

/// Whether the path-keyed viewer can colour a file at `path` (see
/// [`path_colourable`]).
pub fn can_color_path(path: &str) -> (r: bool)
    ensures
        r == path_colourable(path@),
{
    let ext = extension_text(path);
    if basic_class_of(ext.as_str(), true).is_some() {
        return true;
    }
    let f = file_name_text(path);
    name_hash_fits(f.as_str())
}

/// Colour class of a file at `path` in the path-keyed basic viewer.
pub fn color_for_path(path: &str) -> (c: ColorClass)
    requires
        path_colourable(path@),
    ensures
        c == spec_color_for_path(path@),
{
    let ext = extension_text(path);
    match basic_class_of(ext.as_str(), true) {
        Some(c) => c,
        None => {
            let f = file_name_text(path);
            hashed_from_u32(name_hash(f.as_str()))
        },
    }
}

} // verus!
