//! What the metadata tools page decides: which files it takes, what kind of
//! file was picked, the name of the edited download, the cover hint and the
//! status shown after each step.

use vstd::prelude::*;
use vstd::string::StringExecFns;
use crate::i18n::{
    tools_cover_invalid, tools_cover_invalid_text, tools_cover_kept, tools_cover_kept_text,
    tools_cover_updated, tools_cover_updated_text, tools_export_fail, tools_export_fail_text,
    tools_export_ok, tools_export_ok_text, tools_mp3_ready, tools_mp3_ready_text,
    tools_no_cover, tools_no_cover_text, tools_photo_soon, tools_photo_soon_text,
    tools_unknown, tools_unknown_text, tools_video_soon, tools_video_soon_text,
    tools_write_fail, tools_write_fail_text, Lang,
};
use crate::text::{ends_with_ci, ends_with_ignore_case, trim_suffix_all};

verus! {

broadcast use vstd::string::group_string_axioms;

/// The largest file the tools accept, 300 MiB: everything is processed in
/// the browser's memory.
pub const MAX_TOOL_FILE_BYTES: u64 = 300 * 1024 * 1024;

/// Whether a file of `size` bytes is too large for the tools.
pub fn exceeds_size_limit(size: u64) -> (r: bool)
    ensures
        r == (size > MAX_TOOL_FILE_BYTES),
{
    size > MAX_TOOL_FILE_BYTES
}

/// The kinds of file the tools tell apart by extension.
#[derive(Clone, Copy, Debug, PartialEq, Eq, Structural)]
pub enum FileKind {
    Mp3,
    Photo,
    Video,
    Unknown,
}

/// The kind of a file named `name`, by its extension in any letter case.
pub open spec fn file_kind(name: Seq<char>) -> FileKind {
    if ends_with_ci(name, ".mp3"@) {
        FileKind::Mp3
    } else if ends_with_ci(name, ".jpg"@) || ends_with_ci(name, ".jpeg"@) || ends_with_ci(
        name,
        ".png"@,
    ) || ends_with_ci(name, ".webp"@) {
        FileKind::Photo
    } else if ends_with_ci(name, ".mp4"@) || ends_with_ci(name, ".webm"@) || ends_with_ci(
        name,
        ".mov"@,
    ) {
        FileKind::Video
    } else {
        FileKind::Unknown
    }
}

/// The kind of the picked file: MP3 tags can be edited; photos and videos
/// are announced as coming later; anything else is unsupported.
pub fn classify_file(name: &str) -> (r: FileKind)
    ensures
        r == file_kind(name@),
{
    if ends_with_ignore_case(name, ".mp3") {
        FileKind::Mp3
    } else if ends_with_ignore_case(name, ".jpg") || ends_with_ignore_case(name, ".jpeg")
        || ends_with_ignore_case(name, ".png") || ends_with_ignore_case(name, ".webp") {
        FileKind::Photo
    } else if ends_with_ignore_case(name, ".mp4") || ends_with_ignore_case(name, ".webm")
        || ends_with_ignore_case(name, ".mov") {
        FileKind::Video
    } else {
        FileKind::Unknown
    }
}

/// The name offered for the edited file: `edited.mp3` for an unnamed file,
/// otherwise the name without its trailing `.mp3`s (matched exactly), then
/// `_edited.mp3`.
pub open spec fn edited_name(name: Seq<char>) -> Seq<char> {
    if name.len() == 0 {
        "edited.mp3"@
    } else {
        trim_suffix_all(name, ".mp3"@) + "_edited.mp3"@
    }
}

/// The name offered for the edited download of a file named `name`.
pub fn download_name(name: &str) -> (r: String)
    ensures
        r@ == edited_name(name@),
        name@.len() > 0 ==> r@ == trim_suffix_all(name@, seq!['.', 'm', 'p', '3']) + seq![
            '_', 'e', 'd', 'i', 't', 'e', 'd', '.', 'm', 'p', '3',
        ],
{
    if name.is_empty() {
        return "edited.mp3".to_string();
    }
    proof {
        reveal_strlit(".mp3");
    }
    let ghost suffix = ".mp3"@;
    let n = name.unicode_len();
    let mut k: usize = n;
    assert(name@.subrange(0, n as int) =~= name@);
    while k >= 4 && name.get_char(k - 4) == '.' && name.get_char(k - 3) == 'm' && name.get_char(
        k - 2,
    ) == 'p' && name.get_char(k - 1) == '3'
        invariant
            n == name@.len(),
            k <= n,
            suffix == seq!['.', 'm', 'p', '3'],
            trim_suffix_all(name@, suffix) == trim_suffix_all(name@.subrange(0, k as int), suffix),
        decreases k,
    {
        let ghost t = name@.subrange(0, k as int);
        assert(t.subrange(t.len() - 4, t.len() as int) =~= suffix);
        assert(t.subrange(0, t.len() - 4) =~= name@.subrange(0, k - 4));
        k = k - 4;
    }
    let ghost t = name@.subrange(0, k as int);
    assert(trim_suffix_all(t, suffix) == t) by {
        if 4 <= t.len() && t.subrange(t.len() - 4, t.len() as int) == suffix {
            assert(t[t.len() - 4] == t.subrange(t.len() - 4, t.len() as int)[0]);
            assert(t[t.len() - 3] == t.subrange(t.len() - 4, t.len() as int)[1]);
            assert(t[t.len() - 2] == t.subrange(t.len() - 4, t.len() as int)[2]);
            assert(t[t.len() - 1] == t.subrange(t.len() - 4, t.len() as int)[3]);
        }
    }
    let stem = String::from_str(name.substring_char(0, k));
    let r = stem.concat("_edited.mp3");
    proof {
        reveal_strlit("_edited.mp3");
    }
    r
}

/// The name offered for an edited file keeps the whole of the picked name
/// except its trailing `.mp3` extensions, and then ends in `_edited.mp3`:
/// nothing of the stem is cut.
pub proof fn lemma_download_name_keeps_stem(name: Seq<char>)
    requires
        name.len() > 0,
    ensures
        ({
            let t = trim_suffix_all(name, seq!['.', 'm', 'p', '3']);
            let r = edited_name(name);
            &&& r.len() == t.len() + 11
            &&& r.subrange(0, t.len() as int) == t
            &&& r.subrange(t.len() as int, r.len() as int) == seq![
                '_', 'e', 'd', 'i', 't', 'e', 'd', '.', 'm', 'p', '3',
            ]
        }),
{
    reveal_strlit(".mp3");
    reveal_strlit("_edited.mp3");
    let t = trim_suffix_all(name, seq!['.', 'm', 'p', '3']);
    assert(".mp3"@ =~= seq!['.', 'm', 'p', '3']);
    let r = edited_name(name);
    assert(r.subrange(0, t.len() as int) =~= t);
    assert(r.subrange(t.len() as int, r.len() as int) =~= "_edited.mp3"@);
}

/// The hint shown under the cover controls: a new cover will be written, or
/// the embedded one kept, or there is none.
pub fn cover_hint(lang: Lang, new_cover_chosen: bool, has_cover: bool) -> (r: &'static str)
    ensures
        r@ == (if new_cover_chosen {
            tools_cover_updated_text(lang)
        } else if has_cover {
            tools_cover_kept_text(lang)
        } else {
            tools_no_cover_text(lang)
        }),
{
    if new_cover_chosen {
        tools_cover_updated(lang)
    } else if has_cover {
        tools_cover_kept(lang)
    } else {
        tools_no_cover(lang)
    }
}

/// The status shown once a picked file has been read, by the file's kind:
/// an MP3 is ready for editing; photos and videos are not handled yet.
pub fn picked_file_status(lang: Lang, kind: FileKind) -> (r: &'static str)
    ensures
        r@ == match kind {
            FileKind::Mp3 => tools_mp3_ready_text(lang),
            FileKind::Photo => tools_photo_soon_text(lang),
            FileKind::Video => tools_video_soon_text(lang),
            FileKind::Unknown => tools_unknown_text(lang),
        },
{
    match kind {
        FileKind::Mp3 => tools_mp3_ready(lang),
        FileKind::Photo => tools_photo_soon(lang),
        FileKind::Video => tools_video_soon(lang),
        FileKind::Unknown => tools_unknown(lang),
    }
}

/// The status shown once a picked cover image has been read: updated when
/// its type was recognised, refused otherwise.
pub fn cover_pick_status(lang: Lang, recognised: bool) -> (r: &'static str)
    ensures
        r@ == (if recognised {
            tools_cover_updated_text(lang)
        } else {
            tools_cover_invalid_text(lang)
        }),
{
    if recognised {
        tools_cover_updated(lang)
    } else {
        tools_cover_invalid(lang)
    }
}

/// The status shown after an export: the tag could not be written, or it was
/// and the download started, or the download failed.
pub fn export_status(lang: Lang, written: bool, downloaded: bool) -> (r: &'static str)
    ensures
        r@ == (if !written {
            tools_write_fail_text(lang)
        } else if downloaded {
            tools_export_ok_text(lang)
        } else {
            tools_export_fail_text(lang)
        }),
{
    if !written {
        tools_write_fail(lang)
    } else if downloaded {
        tools_export_ok(lang)
    } else {
        tools_export_fail(lang)
    }
}

/// A file that the picker takes for a photo (by its extension) is always
/// accepted as a cover image, whatever its bytes.
pub proof fn lemma_photos_are_cover_images(name: Seq<char>, data: Seq<u8>)
    requires
        file_kind(name) == FileKind::Photo,
    ensures
        crate::meta_edit::image_mime(name, data) is Some,
{
}

} // verus!
