//! Recognizing the format of a file: from its first bytes (the binary FBX
//! magic, or a line typical of ASCII FBX, `.obj` or `.mtl` text, looking
//! further ahead until the lookahead limit) and, failing that, from the
//! extension of its name.
use vstd::prelude::*;
use crate::lines::{LineSpan, spec_next_line, next_line};
use crate::matcher::{spec_match, pattern_match};
use crate::opts::{FileFormat, LoadOptsView};

verus! {

/// The first line of an ASCII FBX file: `; FBX <version> project file`.
pub open spec fn fbx_header_pattern() -> Seq<u8> {
    seq![0x3bu8, 0x5cu8, 0x73u8, 0x2au8, 0x46u8, 0x42u8, 0x58u8, 0x5cu8, 0x73u8, 0x2au8, 0x5cu8, 0x64u8, 0x2bu8, 0x5cu8, 0x2eu8, 0x5cu8, 0x64u8, 0x2bu8, 0x5cu8, 0x2eu8, 0x5cu8, 0x64u8, 0x2bu8, 0x5cu8, 0x73u8, 0x2au8, 0x70u8, 0x72u8, 0x6fu8, 0x6au8, 0x65u8, 0x63u8, 0x74u8, 0x5cu8, 0x73u8, 0x2bu8, 0x66u8, 0x69u8, 0x6cu8, 0x65u8]
}

/// The first line of an ASCII FBX file: `; FBX <version> project file`.
pub fn fbx_header_pattern_bytes() -> (r: Vec<u8>)
    ensures
        r@ == fbx_header_pattern(),
{
    let r = vec![0x3bu8, 0x5cu8, 0x73u8, 0x2au8, 0x46u8, 0x42u8, 0x58u8, 0x5cu8, 0x73u8, 0x2au8, 0x5cu8, 0x64u8, 0x2bu8, 0x5cu8, 0x2eu8, 0x5cu8, 0x64u8, 0x2bu8, 0x5cu8, 0x2eu8, 0x5cu8, 0x64u8, 0x2bu8, 0x5cu8, 0x73u8, 0x2au8, 0x70u8, 0x72u8, 0x6fu8, 0x6au8, 0x65u8, 0x63u8, 0x74u8, 0x5cu8, 0x73u8, 0x2bu8, 0x66u8, 0x69u8, 0x6cu8, 0x65u8];
    assert(r@ =~= fbx_header_pattern());
    r
}

/// The header node of an ASCII FBX file.
pub open spec fn fbx_extension_pattern() -> Seq<u8> {
    seq![0x46u8, 0x42u8, 0x58u8, 0x48u8, 0x65u8, 0x61u8, 0x64u8, 0x65u8, 0x72u8, 0x45u8, 0x78u8, 0x74u8, 0x65u8, 0x6eu8, 0x73u8, 0x69u8, 0x6fu8, 0x6eu8, 0x3au8, 0x2eu8, 0x2au8]
}

/// The header node of an ASCII FBX file.
pub fn fbx_extension_pattern_bytes() -> (r: Vec<u8>)
    ensures
        r@ == fbx_extension_pattern(),
{
    let r = vec![0x46u8, 0x42u8, 0x58u8, 0x48u8, 0x65u8, 0x61u8, 0x64u8, 0x65u8, 0x72u8, 0x45u8, 0x78u8, 0x74u8, 0x65u8, 0x6eu8, 0x73u8, 0x69u8, 0x6fu8, 0x6eu8, 0x3au8, 0x2eu8, 0x2au8];
    assert(r@ =~= fbx_extension_pattern());
    r
}

/// A typical `.obj` line: a vertex of at least three numbers (two for UVs), a face of three corners, or a material directive.
pub open spec fn obj_pattern() -> Seq<u8> {
    seq![0x28u8, 0x76u8, 0x6eu8, 0x3fu8, 0x5cu8, 0x73u8, 0x2bu8, 0x5cu8, 0x46u8, 0x7cu8, 0x76u8, 0x74u8, 0x29u8, 0x5cu8, 0x73u8, 0x2bu8, 0x5cu8, 0x46u8, 0x5cu8, 0x73u8, 0x2bu8, 0x5cu8, 0x46u8, 0x2eu8, 0x2au8, 0x7cu8, 0x66u8, 0x5cu8, 0x73u8, 0x2bu8, 0x5bu8, 0x5cu8, 0x2du8, 0x2fu8, 0x30u8, 0x2du8, 0x39u8, 0x5du8, 0x2bu8, 0x5cu8, 0x73u8, 0x2bu8, 0x5bu8, 0x5cu8, 0x2du8, 0x2fu8, 0x30u8, 0x2du8, 0x39u8, 0x5du8, 0x2bu8, 0x5cu8, 0x73u8, 0x2au8, 0x5bu8, 0x5cu8, 0x2du8, 0x2fu8, 0x30u8, 0x2du8, 0x39u8, 0x5du8, 0x2bu8, 0x2eu8, 0x2au8, 0x7cu8, 0x28u8, 0x75u8, 0x73u8, 0x65u8, 0x6du8, 0x74u8, 0x6cu8, 0x7cu8, 0x6du8, 0x74u8, 0x6cu8, 0x6cu8, 0x69u8, 0x62u8, 0x29u8, 0x5cu8, 0x73u8, 0x2bu8, 0x5cu8, 0x53u8, 0x2eu8, 0x2au8]
}

/// A typical `.obj` line: a vertex of at least three numbers (two for UVs), a face of three corners, or a material directive.
pub fn obj_pattern_bytes() -> (r: Vec<u8>)
    ensures
        r@ == obj_pattern(),
{
    let r = vec![0x28u8, 0x76u8, 0x6eu8, 0x3fu8, 0x5cu8, 0x73u8, 0x2bu8, 0x5cu8, 0x46u8, 0x7cu8, 0x76u8, 0x74u8, 0x29u8, 0x5cu8, 0x73u8, 0x2bu8, 0x5cu8, 0x46u8, 0x5cu8, 0x73u8, 0x2bu8, 0x5cu8, 0x46u8, 0x2eu8, 0x2au8, 0x7cu8, 0x66u8, 0x5cu8, 0x73u8, 0x2bu8, 0x5bu8, 0x5cu8, 0x2du8, 0x2fu8, 0x30u8, 0x2du8, 0x39u8, 0x5du8, 0x2bu8, 0x5cu8, 0x73u8, 0x2bu8, 0x5bu8, 0x5cu8, 0x2du8, 0x2fu8, 0x30u8, 0x2du8, 0x39u8, 0x5du8, 0x2bu8, 0x5cu8, 0x73u8, 0x2au8, 0x5bu8, 0x5cu8, 0x2du8, 0x2fu8, 0x30u8, 0x2du8, 0x39u8, 0x5du8, 0x2bu8, 0x2eu8, 0x2au8, 0x7cu8, 0x28u8, 0x75u8, 0x73u8, 0x65u8, 0x6du8, 0x74u8, 0x6cu8, 0x7cu8, 0x6du8, 0x74u8, 0x6cu8, 0x6cu8, 0x69u8, 0x62u8, 0x29u8, 0x5cu8, 0x73u8, 0x2bu8, 0x5cu8, 0x53u8, 0x2eu8, 0x2au8];
    assert(r@ =~= obj_pattern());
    r
}

/// A `.mtl` material definition.
pub open spec fn mtl_pattern() -> Seq<u8> {
    seq![0x6eu8, 0x65u8, 0x77u8, 0x6du8, 0x74u8, 0x6cu8, 0x5cu8, 0x73u8, 0x2bu8, 0x5cu8, 0x53u8, 0x2eu8, 0x2au8]
}

/// A `.mtl` material definition.
pub fn mtl_pattern_bytes() -> (r: Vec<u8>)
    ensures
        r@ == mtl_pattern(),
{
    let r = vec![0x6eu8, 0x65u8, 0x77u8, 0x6du8, 0x74u8, 0x6cu8, 0x5cu8, 0x73u8, 0x2bu8, 0x5cu8, 0x53u8, 0x2eu8, 0x2au8];
    assert(r@ =~= mtl_pattern());
    r
}

/// The extension `.fbx` in any case.
pub open spec fn fbx_suffix_pattern() -> Seq<u8> {
    seq![0x5cu8, 0x63u8, 0x5cu8, 0x2eu8, 0x66u8, 0x62u8, 0x78u8]
}

/// The extension `.fbx` in any case.
pub fn fbx_suffix_pattern_bytes() -> (r: Vec<u8>)
    ensures
        r@ == fbx_suffix_pattern(),
{
    let r = vec![0x5cu8, 0x63u8, 0x5cu8, 0x2eu8, 0x66u8, 0x62u8, 0x78u8];
    assert(r@ =~= fbx_suffix_pattern());
    r
}

/// The extension `.obj` in any case.
pub open spec fn obj_suffix_pattern() -> Seq<u8> {
    seq![0x5cu8, 0x63u8, 0x5cu8, 0x2eu8, 0x6fu8, 0x62u8, 0x6au8]
}

/// The extension `.obj` in any case.
pub fn obj_suffix_pattern_bytes() -> (r: Vec<u8>)
    ensures
        r@ == obj_suffix_pattern(),
{
    let r = vec![0x5cu8, 0x63u8, 0x5cu8, 0x2eu8, 0x6fu8, 0x62u8, 0x6au8];
    assert(r@ =~= obj_suffix_pattern());
    r
}

/// The extension `.mtl` in any case.
pub open spec fn mtl_suffix_pattern() -> Seq<u8> {
    seq![0x5cu8, 0x63u8, 0x5cu8, 0x2eu8, 0x6du8, 0x74u8, 0x6cu8]
}

/// The extension `.mtl` in any case.
pub fn mtl_suffix_pattern_bytes() -> (r: Vec<u8>)
    ensures
        r@ == mtl_suffix_pattern(),
{
    let r = vec![0x5cu8, 0x63u8, 0x5cu8, 0x2eu8, 0x6du8, 0x74u8, 0x6cu8];
    assert(r@ =~= mtl_suffix_pattern());
    r
}

/// The comment ZBrush starts its `.obj` files with.
pub open spec fn zbrush_pattern() -> Seq<u8> {
    seq![0x5cu8, 0x73u8, 0x2au8, 0x23u8, 0x5cu8, 0x73u8, 0x2au8, 0x46u8, 0x69u8, 0x6cu8, 0x65u8, 0x20u8, 0x65u8, 0x78u8, 0x70u8, 0x6fu8, 0x72u8, 0x74u8, 0x65u8, 0x64u8, 0x20u8, 0x62u8, 0x79u8, 0x20u8, 0x5au8, 0x42u8, 0x72u8, 0x75u8, 0x73u8, 0x68u8, 0x2eu8, 0x2au8]
}

/// The comment ZBrush starts its `.obj` files with.
pub fn zbrush_pattern_bytes() -> (r: Vec<u8>)
    ensures
        r@ == zbrush_pattern(),
{
    let r = vec![0x5cu8, 0x73u8, 0x2au8, 0x23u8, 0x5cu8, 0x73u8, 0x2au8, 0x46u8, 0x69u8, 0x6cu8, 0x65u8, 0x20u8, 0x65u8, 0x78u8, 0x70u8, 0x6fu8, 0x72u8, 0x74u8, 0x65u8, 0x64u8, 0x20u8, 0x62u8, 0x79u8, 0x20u8, 0x5au8, 0x42u8, 0x72u8, 0x75u8, 0x73u8, 0x68u8, 0x2eu8, 0x2au8];
    assert(r@ =~= zbrush_pattern());
    r
}

/// Whether some line of `buf` (cut by `next_line` with whitespace trimmed)
/// matches one of the patterns `pats`.
pub open spec fn spec_any_line(buf: Seq<u8>, pats: Seq<Seq<u8>>) -> bool
    decreases buf.len(),
{
    match spec_next_line(buf, true) {
        None => false,
        Some(l) => {
            let line = buf.subrange(l.begin as int, l.end as int);
            if exists|k: int| 0 <= k < pats.len() && spec_match(line, #[trigger] pats[k]) {
                true
            } else if 0 < l.rest <= buf.len() {
                spec_any_line(buf.subrange(l.rest as int, buf.len() as int), pats)
            } else {
                false
            }
        },
    }
}

/// Whether `data` starts with `prefix`.
pub open spec fn spec_has_prefix(data: Seq<u8>, prefix: Seq<u8>) -> bool {
    prefix.len() <= data.len() && data.subrange(0, prefix.len() as int) == prefix
}

/// Whether `data` looks like a file of `format`: a binary FBX file starts
/// with `magic`, an ASCII one has an FBX header line; `.obj` and `.mtl`
/// files have a typical line (see the patterns).
pub open spec fn spec_is_format(data: Seq<u8>, format: FileFormat, magic: Seq<u8>) -> bool {
    match format {
        FileFormat::Fbx => spec_has_prefix(data, magic) || spec_any_line(
            data,
            seq![fbx_header_pattern(), fbx_extension_pattern()],
        ),
        FileFormat::Obj => spec_any_line(data, seq![obj_pattern()]),
        FileFormat::Mtl => spec_any_line(data, seq![mtl_pattern()]),
        FileFormat::Unknown => false,
    }
}

/// Whether some pattern of `pats` matches all of `line`.
fn matches_any(line: &[u8], pats: &Vec<Vec<u8>>) -> (r: bool)
    requires
        line.len() <= usize::MAX - 8,
        forall|k: int| 0 <= k < pats@.len() ==> (#[trigger] pats@[k])@.len() <= usize::MAX - 8,
    ensures
        r == exists|k: int| 0 <= k < pats@.len() && spec_match(line@, #[trigger] pats_view(pats@)[k]),
{
    let mut k: usize = 0;
    while k < pats.len()
        invariant
            k <= pats@.len(),
            line.len() <= usize::MAX - 8,
            forall|j: int| 0 <= j < pats@.len() ==> (#[trigger] pats@[j])@.len() <= usize::MAX - 8,
            forall|j: int| 0 <= j < k ==> !spec_match(line@, #[trigger] pats_view(pats@)[j]),
        decreases pats@.len() - k,
    {
        if pattern_match(line, pats[k].as_slice()) {
            assert(spec_match(line@, pats_view(pats@)[k as int]));
            return true;
        }
        k = k + 1;
    }
    false
}

/// The byte strings of a list of patterns.
pub open spec fn pats_view(pats: Seq<Vec<u8>>) -> Seq<Seq<u8>> {
    pats.map_values(|v: Vec<u8>| v@)
}

/// Whether some line of `data` matches one of `pats` (see
/// `spec_any_line`).
fn any_line(data: &[u8], pats: &Vec<Vec<u8>>) -> (r: bool)
    requires
        data.len() <= usize::MAX - 8,
        forall|k: int| 0 <= k < pats@.len() ==> (#[trigger] pats@[k])@.len() <= usize::MAX - 8,
    ensures
        r == spec_any_line(data@, pats_view(pats@)),
{
    let mut pos: usize = 0;
    assert(data@.subrange(0, data.len() as int) =~= data@);
    while pos <= data.len()
        invariant
            data.len() <= usize::MAX - 8,
            forall|k: int| 0 <= k < pats@.len() ==> (#[trigger] pats@[k])@.len() <= usize::MAX - 8,
            pos <= data.len(),
            spec_any_line(data@.subrange(pos as int, data.len() as int), pats_view(pats@)) == spec_any_line(
                data@,
                pats_view(pats@),
            ),
        decreases data.len() - pos,
    {
        let buf = vstd::slice::slice_subrange(data, pos, data.len());
        match next_line(buf, true) {
            None => {
                return false;
            },
            Some(l) => {
                let line = vstd::slice::slice_subrange(buf, l.begin, l.end);
                if matches_any(line, pats) {
                    return true;
                }
                assert(buf@.subrange(l.rest as int, buf@.len() as int) =~= data@.subrange(
                    pos + l.rest,
                    data.len() as int,
                ));
                pos = pos + l.rest;
            },
        }
    }
    assert(data@.subrange(pos as int, data.len() as int).len() == 0);
    false
}

/// Whether `data` looks like a file of `format` (see `spec_is_format`).
pub fn is_format(data: &[u8], format: FileFormat, magic: &[u8]) -> (r: bool)
    requires
        data.len() <= usize::MAX - 8,
    ensures
        r == spec_is_format(data@, format, magic@),
{
    match format {
        FileFormat::Fbx => {
            if magic.len() <= data.len() {
                let head = vstd::slice::slice_subrange(data, 0, magic.len());
                if crate::obj::bytes_equal(head, magic) {
                    return true;
                }
            }
            let pats = vec![fbx_header_pattern_bytes(), fbx_extension_pattern_bytes()];
            assert(pats_view(pats@) =~= seq![fbx_header_pattern(), fbx_extension_pattern()]);
            any_line(data, &pats)
        },
        FileFormat::Obj => {
            let pats = vec![obj_pattern_bytes()];
            assert(pats_view(pats@) =~= seq![obj_pattern()]);
            any_line(data, &pats)
        },
        FileFormat::Mtl => {
            let pats = vec![mtl_pattern_bytes()];
            assert(pats_view(pats@) =~= seq![mtl_pattern()]);
            any_line(data, &pats)
        },
        FileFormat::Unknown => false,
    }
}


/// The first format `data` looks like, trying FBX, `.obj` and `.mtl` in
/// turn.
pub open spec fn spec_content_format(data: Seq<u8>, magic: Seq<u8>) -> FileFormat {
    if spec_is_format(data, FileFormat::Fbx, magic) {
        FileFormat::Fbx
    } else if spec_is_format(data, FileFormat::Obj, magic) {
        FileFormat::Obj
    } else if spec_is_format(data, FileFormat::Mtl, magic) {
        FileFormat::Mtl
    } else {
        FileFormat::Unknown
    }
}

/// The smallest number of bytes looked at when detecting a format.
pub const MIN_FILE_FORMAT_LOOKAHEAD: usize = 32;

/// The lookahead after `lookahead`: doubled, up to `limit`.
pub open spec fn spec_next_lookahead(lookahead: usize, limit: usize) -> usize {
    if lookahead < usize::MAX / 2 {
        if lookahead * 2 < limit {
            (lookahead * 2) as usize
        } else {
            limit
        }
    } else {
        usize::MAX
    }
}

/// Format detection from content, looking at the first `lookahead` bytes
/// and doubling the lookahead up to `limit` while nothing is recognized.
/// `data` holds the file's first bytes up to `limit` (all of a shorter
/// file); `eof` says the end of the file was known before looking (a file
/// in memory), else it becomes known once a lookahead reaches past `data`.
/// The scan stops at a known end shorter than the lookahead. `None` when
/// there is nothing to look at.
pub open spec fn spec_detect_content(data: Seq<u8>, eof: bool, magic: Seq<u8>, lookahead: usize, limit: usize) -> Option<FileFormat>
    decreases usize::MAX - lookahead,
{
    if lookahead > limit || (lookahead > data.len() && eof) {
        Some(FileFormat::Unknown)
    } else {
        let size = if lookahead < data.len() { lookahead as int } else { data.len() as int };
        if size == 0 {
            None
        } else {
            let found = spec_content_format(data.subrange(0, size), magic);
            if found != FileFormat::Unknown || lookahead >= limit {
                Some(found)
            } else {
                let next = spec_next_lookahead(lookahead, limit);
                if next > lookahead {
                    spec_detect_content(data, eof || lookahead > data.len(), magic, next, limit)
                } else {
                    Some(FileFormat::Unknown)
                }
            }
        }
    }
}

/// The extension of a file name: from its last `.` on, or the whole name.
pub open spec fn spec_extension(name: Seq<u8>) -> Seq<u8>
    decreases name.len(),
{
    match crate::obj_lex::spec_find_byte(name.reverse(), 0, 0x2eu8) {
        Some(k) => name.subrange(name.len() - 1 - k, name.len() as int),
        None => name,
    }
}

/// The format a file name's extension names (`.fbx`, `.obj`, `.mtl` in any
/// case).
pub open spec fn spec_extension_format(name: Seq<u8>) -> FileFormat {
    let ext = spec_extension(name);
    if spec_match(ext, fbx_suffix_pattern()) {
        FileFormat::Fbx
    } else if spec_match(ext, obj_suffix_pattern()) {
        FileFormat::Obj
    } else if spec_match(ext, mtl_suffix_pattern()) {
        FileFormat::Mtl
    } else {
        FileFormat::Unknown
    }
}

/// Why a format could not be determined.
#[derive(Clone, Copy, Debug, PartialEq, Eq, Structural)]
pub enum FormatError {
    /// There is nothing to look at.
    EmptyFile,
    /// Neither the content nor the name tell the format.
    Unrecognized,
}

/// The format a file is read as: the one the options give; else, unless
/// disabled, the one its first bytes show (see `spec_detect_content`);
/// else, unless disabled, the one its name's extension names.
pub open spec fn spec_determine_format(
    opts: LoadOptsView,
    data: Seq<u8>,
    eof: bool,
    filename: Seq<u8>,
    magic: Seq<u8>,
) -> Result<FileFormat, FormatError> {
    let content = if opts.file_format == FileFormat::Unknown && !opts.no_format_from_content {
        spec_detect_content(data, eof, magic, MIN_FILE_FORMAT_LOOKAHEAD, opts.file_format_lookahead)
    } else {
        Some(opts.file_format)
    };
    match content {
        None => Err(FormatError::EmptyFile),
        Some(f) => {
            let g = if f == FileFormat::Unknown && !opts.no_format_from_extension && filename.len() > 0 {
                spec_extension_format(filename)
            } else {
                f
            };
            if g == FileFormat::Unknown {
                Err(FormatError::Unrecognized)
            } else {
                Ok(g)
            }
        },
    }
}

/// The format of a name's extension (see `spec_extension_format`).
pub fn extension_format(name: &[u8]) -> (r: FileFormat)
    requires
        name.len() <= usize::MAX - 8,
    ensures
        r == spec_extension_format(name@),
{
    let mut i: usize = name.len();
    while i > 0 && name[i - 1] != 0x2eu8
        invariant
            i <= name.len(),
            forall|k: int| i <= k < name.len() ==> name@[k] != 0x2eu8,
        decreases i,
    {
        i = i - 1;
    }
    let start: usize = if i > 0 {
        i - 1
    } else {
        0
    };
    proof {
        let rev = name@.reverse();
        crate::obj_lex::lemma_find_byte(rev, 0, 0x2eu8);
        if i > 0 {
            assert(rev[name.len() - i] == name@[i - 1]);
            assert forall|k: int| 0 <= k < name.len() - i implies rev[k] != 0x2eu8 by {
                assert(rev[k] == name@[name.len() - 1 - k]);
            }
            assert(crate::obj_lex::spec_find_byte(rev, 0, 0x2eu8) == Some(name.len() - i));
        } else {
            assert forall|k: int| 0 <= k < name.len() implies rev[k] != 0x2eu8 by {
                assert(rev[k] == name@[name.len() - 1 - k]);
            }
            assert(crate::obj_lex::spec_find_byte(rev, 0, 0x2eu8) is None);
            assert(name@.subrange(0, name.len() as int) =~= name@);
        }
    }
    let ext = vstd::slice::slice_subrange(name, start, name.len());
    let fbx = fbx_suffix_pattern_bytes();
    let obj = obj_suffix_pattern_bytes();
    let mtl = mtl_suffix_pattern_bytes();
    if pattern_match(ext, fbx.as_slice()) {
        FileFormat::Fbx
    } else if pattern_match(ext, obj.as_slice()) {
        FileFormat::Obj
    } else if pattern_match(ext, mtl.as_slice()) {
        FileFormat::Mtl
    } else {
        FileFormat::Unknown
    }
}

/// Determines the format a file is read as (see `spec_determine_format`).
/// `data` holds the start of the file up to the lookahead limit, `eof` says
/// whether the end of the file was known before looking, and `magic` is the
/// binary FBX magic.
pub fn determine_format(opts: &LoadOptsView, data: &[u8], eof: bool, filename: &[u8], magic: &[u8]) -> (r: Result<
    FileFormat,
    FormatError,
>)
    requires
        data.len() <= usize::MAX - 8,
        filename.len() <= usize::MAX - 8,
    ensures
        r == spec_determine_format(*opts, data@, eof, filename@, magic@),
{
    let mut format = opts.file_format;
    if format == FileFormat::Unknown && !opts.no_format_from_content {
        let limit = opts.file_format_lookahead;
        let mut lookahead: usize = MIN_FILE_FORMAT_LOOKAHEAD;
        let mut at_end = eof;
        let ghost goal = spec_detect_content(data@, eof, magic@, MIN_FILE_FORMAT_LOOKAHEAD, limit);
        loop
            invariant_except_break
                format == FileFormat::Unknown,
            invariant
                opts.file_format == FileFormat::Unknown,
                !opts.no_format_from_content,
                limit == opts.file_format_lookahead,
                data.len() <= usize::MAX - 8,
                spec_detect_content(data@, at_end, magic@, lookahead, limit) == goal,
                goal == spec_detect_content(data@, eof, magic@, MIN_FILE_FORMAT_LOOKAHEAD, limit),
            ensures
                goal == Some(format),
            decreases usize::MAX - lookahead,
        {
            if lookahead > limit || (lookahead > data.len() && at_end) {
                assert(format == FileFormat::Unknown);
                break;
            }
            let size = if lookahead < data.len() {
                lookahead
            } else {
                data.len()
            };
            if size == 0 {
                return Err(FormatError::EmptyFile);
            }
            let prefix = vstd::slice::slice_subrange(data, 0, size);
            let found = if is_format(prefix, FileFormat::Fbx, magic) {
                FileFormat::Fbx
            } else if is_format(prefix, FileFormat::Obj, magic) {
                FileFormat::Obj
            } else if is_format(prefix, FileFormat::Mtl, magic) {
                FileFormat::Mtl
            } else {
                FileFormat::Unknown
            };
            if found != FileFormat::Unknown || lookahead >= limit {
                format = found;
                break;
            }
            let next = if lookahead < usize::MAX / 2 {
                if lookahead * 2 < limit {
                    lookahead * 2
                } else {
                    limit
                }
            } else {
                usize::MAX
            };
            if next <= lookahead {
                break;
            }
            if lookahead > data.len() {
                at_end = true;
            }
            lookahead = next;
        }
        assert(goal == Some(format));
    }
    if format == FileFormat::Unknown && !opts.no_format_from_extension && filename.len() > 0 {
        format = extension_format(filename);
    }
    if format == FileFormat::Unknown {
        return Err(FormatError::Unrecognized);
    }
    Ok(format)
}

/// How an FBX file is encoded: binary (in either byte order) or ASCII.
#[derive(Clone, Copy, Debug, PartialEq, Eq, Structural)]
pub enum FbxEncoding {
    Binary { big_endian: bool },
    Ascii,
}

/// How parsing an FBX file starts: its encoding, its version and whether
/// it is known to be FBX.
#[derive(Clone, Copy, Debug, PartialEq, Eq, Structural)]
pub struct ParseStart {
    pub encoding: FbxEncoding,
    pub version: u32,
    pub sure_fbx: bool,
}

/// Why an FBX file cannot be parsed from its start.
#[derive(Clone, Copy, Debug, PartialEq, Eq, Structural)]
pub enum BeginError {
    /// An ASCII file without a version header, in strict mode.
    NotFbx,
}

/// The 32-bit number in four bytes, least significant first.
pub open spec fn spec_u32_le(b0: u8, b1: u8, b2: u8, b3: u8) -> u32 {
    (b0 as int + 0x100 * b1 as int + 0x10000 * b2 as int + 0x1000000 * b3 as int) as u32
}

/// Whether `header` starts with `magic`.
pub open spec fn starts_with_magic(header: Seq<u8>, magic: Seq<u8>) -> bool {
    magic.len() <= header.len() && header.subrange(0, magic.len() as int) == magic
}

/// How parsing starts from the header of a file (its first
/// `magic.len() + 5` bytes): after the binary magic come a byte that is
/// nonzero for big-endian files and the version in four bytes of that
/// order, and the file is known to be FBX. Otherwise the file is ASCII,
/// with the version its header comment gave (`ascii_version`, zero for
/// none): a file with one is known to be FBX, one without is taken as
/// version 7400 unless `strict`, which refuses it.
pub open spec fn spec_begin_parse(header: Seq<u8>, magic: Seq<u8>, ascii_version: u32, strict: bool) -> Result<ParseStart, BeginError> {
    let m = magic.len() as int;
    if starts_with_magic(header, magic) {
        let big = header[m] != 0;
        let version = if big {
            spec_u32_le(header[m + 4], header[m + 3], header[m + 2], header[m + 1])
        } else {
            spec_u32_le(header[m + 1], header[m + 2], header[m + 3], header[m + 4])
        };
        Ok(ParseStart { encoding: FbxEncoding::Binary { big_endian: big }, version, sure_fbx: true })
    } else if ascii_version > 0 {
        Ok(ParseStart { encoding: FbxEncoding::Ascii, version: ascii_version, sure_fbx: true })
    } else if !strict {
        Ok(ParseStart { encoding: FbxEncoding::Ascii, version: 7400, sure_fbx: false })
    } else {
        Err(BeginError::NotFbx)
    }
}

fn u32_le(b0: u8, b1: u8, b2: u8, b3: u8) -> (r: u32)
    ensures
        r == spec_u32_le(b0, b1, b2, b3),
{
    b0 as u32 + 0x100u32 * (b1 as u32) + 0x10000u32 * (b2 as u32) + 0x1000000u32 * (b3 as u32)
}

/// Starts parsing an FBX file (see `spec_begin_parse`). A file shorter
/// than the header is read with zeros after its end.
pub fn begin_parse(header: &[u8], magic: &[u8], ascii_version: u32, strict: bool) -> (r: Result<ParseStart, BeginError>)
    requires
        header.len() >= magic.len() + 5,
    ensures
        r == spec_begin_parse(header@, magic@, ascii_version, strict),
{
    let m = magic.len();
    let mut same = true;
    let mut i: usize = 0;
    while i < m
        invariant
            i <= m == magic.len(),
            header.len() >= m + 5,
            same == (forall|j: int| 0 <= j < i ==> header@[j] == magic@[j]),
        decreases m - i,
    {
        if header[i] != magic[i] {
            same = false;
        }
        i = i + 1;
    }
    proof {
        if same {
            assert(header@.subrange(0, m as int) =~= magic@);
        } else {
            let j = choose|j: int| 0 <= j < m && header@[j] != magic@[j];
            assert(header@.subrange(0, m as int)[j] != magic@[j]);
        }
    }
    if same {
        let big = header[m] != 0;
        let version = if big {
            u32_le(header[m + 4], header[m + 3], header[m + 2], header[m + 1])
        } else {
            u32_le(header[m + 1], header[m + 2], header[m + 3], header[m + 4])
        };
        Ok(ParseStart { encoding: FbxEncoding::Binary { big_endian: big }, version, sure_fbx: true })
    } else if ascii_version > 0 {
        Ok(ParseStart { encoding: FbxEncoding::Ascii, version: ascii_version, sure_fbx: true })
    } else if !strict {
        Ok(ParseStart { encoding: FbxEncoding::Ascii, version: 7400, sure_fbx: false })
    } else {
        Err(BeginError::NotFbx)
    }
}

} // verus!
