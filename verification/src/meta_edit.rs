//! Reading and writing the title, artist, album and cover of an MP3 file, and
//! recognising cover images.

use vstd::prelude::*;
use crate::text::{ends_with_ci, ends_with_ignore_case};
use crate::id3_tag::{
    frames_conflict, has_id, lemma_frames_len_added, lemma_no_conflict,
    lemma_no_conflict_without_id, lemma_pictures_after_push, lemma_text_after_add,
    lemma_text_after_push, lemma_text_of_new_id, ContentModel, PictureKind,
};
use crate::id3_tag::{
    add_picture, add_picture_from, added_frame, album, all_plain, artist,
    frame_pictures, frame_text, frames_len, id3_read, id3_size_limit, id3_write_v24,
    id3v24_tag_bytes, new_tag, picture_count, picture_frame, picture_frame_len, picture_parts,
    picture_parts_of,
    read_tag, set_album, set_artist, set_title, tag_frames, text_frame, text_frame_len, title,
    write_tag, FrameModel, PictureModel, TagVersion,
};
use crate::id3_tag::{
    all_read_back, ascii_without_nul, conflict_free, lemma_added_frame_conflict_free,
    lemma_added_frame_reads_back, lemma_re_added_conflict_free, no_trailing_nul,
    picture_reads_back, reads_back,
};
use id3::Tag;

verus! {

broadcast use vstd::string::group_string_axioms;

/// The editable metadata of an MP3 file.
#[derive(Clone, Debug)]
pub struct Mp3MetaView {
    pub title: String,
    pub artist: String,
    pub album: String,
    pub has_cover: bool,
}

impl Default for Mp3MetaView {
    fn default() -> (v: Self)
        ensures
            v.title@.len() == 0,
            v.artist@.len() == 0,
            v.album@.len() == 0,
            !v.has_cover,
    {
        Mp3MetaView {
            title: String::new(),
            artist: String::new(),
            album: String::new(),
            has_cover: false,
        }
    }
}

/// The eight bytes every PNG file starts with.
pub open spec fn png_signature() -> Seq<u8> {
    seq![0x89u8, 0x50, 0x4e, 0x47, 0x0d, 0x0a, 0x1a, 0x0a]
}

/// The MIME type of a cover image: first by the file name's extension, in any
/// letter case (`.png`, `.webp`, `.jpg`/`.jpeg`), then by the leading bytes
/// (PNG signature, JPEG start-of-image marker, RIFF container of WebP).
pub open spec fn image_mime(name: Seq<char>, data: Seq<u8>) -> Option<Seq<char>> {
    if ends_with_ci(name, ".png"@) {
        Some("image/png"@)
    } else if ends_with_ci(name, ".webp"@) {
        Some("image/webp"@)
    } else if ends_with_ci(name, ".jpg"@) || ends_with_ci(name, ".jpeg"@) {
        Some("image/jpeg"@)
    } else if data.len() >= 8 && data.subrange(0, 8) == png_signature() {
        Some("image/png"@)
    } else if data.len() >= 3 && data[0] == 0xff && data[1] == 0xd8 && data[2] == 0xff {
        Some("image/jpeg"@)
    } else if data.len() >= 12 && data.subrange(0, 4) == seq![0x52u8, 0x49, 0x46, 0x46]
        && data.subrange(8, 12) == seq![0x57u8, 0x45, 0x42, 0x50] {
        Some("image/webp"@)
    } else {
        None
    }
}

/// Whether `data` starts with the bytes of `prefix`.
fn starts_with_bytes(data: &[u8], prefix: &[u8]) -> (r: bool)
    ensures
        r == (prefix@.len() <= data@.len() && data@.subrange(0, prefix@.len() as int)
            == prefix@),
{
    if prefix.len() > data.len() {
        return false;
    }
    let mut k: usize = 0;
    while k < prefix.len()
        invariant
            prefix@.len() <= data@.len(),
            k <= prefix@.len(),
            forall|j: int| 0 <= j < k ==> data@[j] == prefix@[j],
        decreases prefix@.len() - k,
    {
        if data[k] != prefix[k] {
            return false;
        }
        k = k + 1;
    }
    assert(data@.subrange(0, prefix@.len() as int) =~= prefix@);
    true
}

/// The MIME type of a cover image chosen by the user, from its file name and
/// its bytes; `None` when it is neither PNG, JPEG nor WebP.
pub fn mime_for_image_bytes(name: &str, data: &[u8]) -> (r: Option<String>)
    ensures
        match r {
            Some(s) => image_mime(name@, data@) == Some(s@),
            None => image_mime(name@, data@) is None,
        },
{
    if ends_with_ignore_case(name, ".png") {
        return Some("image/png".to_string());
    }
    if ends_with_ignore_case(name, ".webp") {
        return Some("image/webp".to_string());
    }
    if ends_with_ignore_case(name, ".jpg") || ends_with_ignore_case(name, ".jpeg") {
        return Some("image/jpeg".to_string());
    }
    let png: [u8; 8] = [0x89, 0x50, 0x4e, 0x47, 0x0d, 0x0a, 0x1a, 0x0a];
    if data.len() >= 8 && starts_with_bytes(data, png.as_slice()) {
        assert(png@ == png_signature());
        return Some("image/png".to_string());
    }
    if data.len() >= 3 && data[0] == 0xff && data[1] == 0xd8 && data[2] == 0xff {
        return Some("image/jpeg".to_string());
    }
    if data.len() >= 12 {
        let riff: [u8; 4] = [0x52, 0x49, 0x46, 0x46];
        let webp: [u8; 4] = [0x57, 0x45, 0x42, 0x50];
        let tail = vstd::slice::slice_subrange(data, 8, 12);
        if starts_with_bytes(data, riff.as_slice()) && starts_with_bytes(tail, webp.as_slice()) {
            assert(tail@.subrange(0, 4) =~= data@.subrange(8, 12));
            return Some("image/webp".to_string());
        }
        assert(!(data@.subrange(0, 4) == seq![0x52u8, 0x49, 0x46, 0x46] && data@.subrange(8, 12)
            == seq![0x57u8, 0x45, 0x42, 0x50])) by {
            assert(riff@ == seq![0x52u8, 0x49, 0x46, 0x46]);
            assert(webp@ == seq![0x57u8, 0x45, 0x42, 0x50]);
            assert(tail@.subrange(0, 4) =~= data@.subrange(8, 12));
        }
    }
    None
}

/// `o`'s string, or the empty string.
pub open spec fn text_or_empty(o: Option<Seq<char>>) -> Seq<char> {
    match o {
        Some(t) => t,
        None => Seq::empty(),
    }
}

/// The size field of an ID3v2 header: bytes 6 to 9, seven bits of each,
/// most significant first.
pub open spec fn header_size_field(bytes: Seq<u8>) -> int {
    (bytes[6] % 128) * 0x200000 + (bytes[7] % 128) * 0x4000 + (bytes[8] % 128) * 0x80 + bytes[9]
        % 128
}

/// `bytes` start with an ID3v2 header: `ID3` and seven more bytes.
pub open spec fn starts_with_id3v2_header(bytes: Seq<u8>) -> bool {
    bytes.len() >= 10 && bytes[0] == 0x49 && bytes[1] == 0x44 && bytes[2] == 0x33
}

/// An ID3v2.4 header announces a footer with bit 4 of its flags byte.
pub open spec fn announces_footer(bytes: Seq<u8>) -> bool {
    bytes[3] == 4 && (bytes[5] / 16) % 2 == 1
}

/// The number of bytes that the ID3v2 tag at the start of `bytes` takes: the
/// ten header bytes, the size the header gives (extended header, frames and
/// padding), and ten footer bytes where the header announces a footer; zero
/// when `bytes` do not start with an ID3v2 header.
pub open spec fn id3v2_tag_size(bytes: Seq<u8>) -> int {
    if starts_with_id3v2_header(bytes) {
        10 + header_size_field(bytes) + if announces_footer(bytes) {
            10int
        } else {
            0int
        }
    } else {
        0
    }
}

/// The length of the ID3v2 tag at the start of `bytes` (see
/// [`id3v2_tag_size`]); the audio of an MP3 file starts there.
pub fn id3v2_tag_len(bytes: &[u8]) -> (n: u64)
    ensures
        n == id3v2_tag_size(bytes@),
{
    if bytes.len() < 10 || bytes[0] != 0x49 || bytes[1] != 0x44 || bytes[2] != 0x33 {
        return 0;
    }
    let size: u64 = (bytes[6] % 128) as u64 * 0x200000 + (bytes[7] % 128) as u64 * 0x4000 + (
    bytes[8] % 128) as u64 * 0x80 + (bytes[9] % 128) as u64;
    let flags: u8 = bytes[5];
    let footer: bool = bytes[3] == 4 && flags & 0x10 != 0;
    assert((flags & 0x10 != 0) == ((flags / 16) % 2 == 1)) by (bit_vector);
    if footer {
        20 + size
    } else {
        10 + size
    }
}

/// What [`read_mp3_meta`] gives for a file: title, artist, album, whether a
/// cover is embedded, and the audio. When a tag is read, the audio is what
/// follows the ID3v2 tag at the start: nothing when the tag claims more bytes
/// than the file has, and the whole file when the tag was not at the start
/// (as in a chunk of an AIFF or WAV file). When no tag can be read the whole
/// file is audio.
pub open spec fn read_outcome(bytes: Seq<u8>) -> (Seq<char>, Seq<char>, Seq<char>, bool, Seq<u8>) {
    match id3_read(bytes) {
        Some(frames) => {
            let start = if id3v2_tag_size(bytes) <= bytes.len() {
                id3v2_tag_size(bytes)
            } else {
                bytes.len() as int
            };
            (
                text_or_empty(frame_text(frames, "TIT2"@)),
                text_or_empty(frame_text(frames, "TPE1"@)),
                text_or_empty(frame_text(frames, "TALB"@)),
                frame_pictures(frames).len() > 0,
                bytes.subrange(start, bytes.len() as int),
            )
        },
        None => (Seq::empty(), Seq::empty(), Seq::empty(), false, bytes),
    }
}

/// Whether the tag holds at least one picture.
pub fn has_embedded_cover(tag: &Tag) -> (r: bool)
    ensures
        r == (frame_pictures(tag_frames(*tag)).len() > 0),
{
    picture_count(tag) > 0
}

fn string_or_empty(o: Option<String>) -> (r: String)
    ensures
        r@ == text_or_empty(
            match o {
                Some(s) => Some(s@),
                None => None,
            },
        ),
{
    match o {
        Some(s) => s,
        None => String::new(),
    }
}

/// Where the audio starts in a file that begins with an ID3v2 header of any
/// version: after the ten header bytes, the size held in bytes 6 to 9 (seven
/// bits of each, most significant first), and ten footer bytes when a v2.4
/// header sets bit 4 of its flags.
pub open spec fn audio_start_after_header(bytes: Seq<u8>) -> int {
    10 + (bytes[6] as int % 128) * 2097152 + (bytes[7] as int % 128) * 16384 + (bytes[8] as int
        % 128) * 128 + bytes[9] as int % 128 + if bytes[3] == 4 && bytes[5] & 0x10 != 0 {
        10int
    } else {
        0int
    }
}

/// The audio of a file is what follows its ID3v2 tag, whichever version the
/// tag is (2.2, 2.3 or 2.4), when the reader takes the tag and the tag fits in
/// the file; with no readable tag the whole file is audio.
pub proof fn lemma_audio_after_any_tag(bytes: Seq<u8>)
    ensures
        id3_read(bytes) is Some && bytes.len() >= 10 && bytes[0] == 0x49 && bytes[1] == 0x44
            && bytes[2] == 0x33 && audio_start_after_header(bytes) <= bytes.len() ==> read_outcome(
            bytes,
        ).4 == bytes.subrange(audio_start_after_header(bytes), bytes.len() as int),
        id3_read(bytes) is None ==> read_outcome(bytes).4 == bytes,
{
    if bytes.len() >= 10 {
        let f = bytes[5];
        assert((f & 0x10 != 0) == ((f / 16) % 2 == 1)) by (bit_vector);
    }
}

/// Splits an MP3 file into the metadata of its ID3 tag and the audio bytes
/// after the tag; a file without a readable tag is all audio, with empty
/// metadata.
pub fn read_mp3_meta(bytes: &[u8]) -> (r: Option<(Mp3MetaView, Vec<u8>)>)
    ensures
        r matches Some((v, audio)) && read_outcome(bytes@) == (
            v.title@,
            v.artist@,
            v.album@,
            v.has_cover,
            audio@,
        ),
        id3_read(bytes@) is Some && bytes@.len() >= 10 && bytes@[0] == 0x49 && bytes@[1] == 0x44
            && bytes@[2] == 0x33 && audio_start_after_header(bytes@) <= bytes@.len() ==> (
        r matches Some((_, audio)) && audio@ == bytes@.subrange(
            audio_start_after_header(bytes@),
            bytes@.len() as int,
        )),
        id3_read(bytes@) is None ==> (r matches Some((_, audio)) && audio@ == bytes@),
{
    proof {
        lemma_audio_after_any_tag(bytes@);
    }
    match read_tag(bytes) {
        Some(tag) => {
            let end = id3v2_tag_len(bytes);
            let start: usize = if end <= bytes.len() as u64 {
                end as usize
            } else {
                bytes.len()
            };
            let audio = vstd::slice::slice_to_vec(
                vstd::slice::slice_subrange(bytes, start, bytes.len()),
            );
            let view = Mp3MetaView {
                title: string_or_empty(title(&tag)),
                artist: string_or_empty(artist(&tag)),
                album: string_or_empty(album(&tag)),
                has_cover: has_embedded_cover(&tag),
            };
            Some((view, audio))
        },
        None => {
            let audio = vstd::slice::slice_to_vec(bytes);
            Some((Mp3MetaView::default(), audio))
        },
    }
}

/// The ID3 tag at the start of `bytes`, if one can be read.
pub fn read_mp3_tag(bytes: &[u8]) -> (r: Option<Tag>)
    ensures
        match r {
            Some(t) => id3_read(bytes@) == Some(tag_frames(t)),
            None => id3_read(bytes@) is None,
        },
{
    read_tag(bytes)
}

/// `frames` after setting the text frame `id` to `text`, which is done only
/// when `text` is not empty.
pub open spec fn with_text(frames: Seq<FrameModel>, id: Seq<char>, text: Seq<char>) -> Seq<
    FrameModel,
> {
    if text.len() > 0 {
        added_frame(frames, text_frame(id, text))
    } else {
        frames
    }
}

/// `frames` after adding the pictures one by one, in order.
pub open spec fn with_pictures(frames: Seq<FrameModel>, pics: Seq<PictureModel>) -> Seq<
    FrameModel,
>
    decreases pics.len(),
{
    if pics.len() == 0 {
        frames
    } else {
        added_frame(with_pictures(frames, pics.drop_last()), picture_frame(pics.last()))
    }
}

/// The type code of a front cover picture.
pub const FRONT_COVER_CODE: u8 = 3;

/// The new front cover picture of MIME type `mime` holding `data`, with no
/// description.
pub open spec fn front_cover(data: Seq<u8>, mime: Seq<char>) -> PictureModel {
    PictureModel {
        mime_type: mime,
        picture_type: PictureKind::CoverFront,
        description: Seq::empty(),
        data,
    }
}

/// The frames of the tag that [`write_mp3_meta`] writes: title, artist and
/// album where they are not empty; then a new front cover when one is given
/// (only if both its bytes and MIME type are non-empty), or else the pictures
/// `kept` from the original tag.
pub open spec fn written_frames(
    title: Seq<char>,
    artist: Seq<char>,
    album: Seq<char>,
    kept: Option<Seq<PictureModel>>,
    cover: Option<(Seq<u8>, Seq<char>)>,
) -> Seq<FrameModel> {
    let f = with_text(
        with_text(with_text(Seq::empty(), "TIT2"@, title), "TPE1"@, artist),
        "TALB"@,
        album,
    );
    match cover {
        Some((data, mime)) => if data.len() > 0 && mime.len() > 0 {
            added_frame(f, picture_frame(front_cover(data, mime)))
        } else {
            f
        },
        None => match kept {
            Some(pics) => with_pictures(f, pics),
            None => f,
        },
    }
}

/// The file written for a tag of `frames` over `audio`: the encoded tag
/// followed by the audio, or nothing when the tag cannot be encoded.
pub open spec fn written_file(frames: Seq<FrameModel>, audio: Seq<u8>) -> Option<Seq<u8>> {
    match id3_write_v24(frames) {
        Some(header) => Some(header + audio),
        None => None,
    }
}

/// The pictures of the tag, if there is one.
pub open spec fn kept_pictures(keep_cover_from: Option<&Tag>) -> Option<Seq<PictureModel>> {
    match keep_cover_from {
        Some(t) => Some(frame_pictures(tag_frames(*t))),
        None => None,
    }
}

/// The new cover as plain values.
pub open spec fn cover_model(new_cover: Option<(Vec<u8>, String)>) -> Option<(Seq<u8>, Seq<char>)> {
    match new_cover {
        Some((data, mime)) => Some((data@, mime@)),
        None => None,
    }
}

/// The frames that [`write_mp3_meta`] writes for these arguments.
pub open spec fn frames_for(
    view: Mp3MetaView,
    keep_cover_from: Option<&Tag>,
    new_cover: Option<(Vec<u8>, String)>,
) -> Seq<FrameModel> {
    written_frames(
        view.title@,
        view.artist@,
        view.album@,
        kept_pictures(keep_cover_from),
        cover_model(new_cover),
    )
}

proof fn lemma_with_text_plain(frames: Seq<FrameModel>, id: Seq<char>, text: Seq<char>)
    requires
        all_plain(frames),
    ensures
        all_plain(with_text(frames, id, text)),
{
    if text.len() > 0 {
        crate::id3_tag::lemma_added_frame_plain(frames, text_frame(id, text));
    }
}

/// The four 7-bit groups of a size below 2^28 give the size back.
proof fn lemma_size_groups(n: int)
    requires
        0 <= n < 0x1000_0000,
    ensures
        ((n / 0x200000) % 128) * 0x200000 + ((n / 0x4000) % 128) * 0x4000 + ((n / 0x80) % 128)
            * 0x80 + n % 128 == n,
{
    let x = n as u32;
    assert(((x / 0x200000) % 128) * 0x200000 + ((x / 0x4000) % 128) * 0x4000 + ((x / 0x80)
        % 128) * 0x80 + x % 128 == x) by (bit_vector)
        requires
            x < 0x1000_0000,
    ;
}

/// An encoded ID3v2.4 tag followed by `audio` is read back as a tag of the
/// encoded tag's length, with exactly `audio` after it.
proof fn lemma_tag_then_audio(header: Seq<u8>, size: int, audio: Seq<u8>)
    requires
        0 <= size < id3_size_limit(),
        id3v24_tag_bytes(header, size),
    ensures
        id3v2_tag_size(header + audio) == header.len(),
        (header + audio).subrange(header.len() as int, (header + audio).len() as int) == audio,
{
    let out = header + audio;
    assert(out[0] == header[0] && out[1] == header[1] && out[2] == header[2]);
    assert(out[3] == header[3] && out[5] == header[5]);
    assert(out[6] == header[6] && out[7] == header[7] && out[8] == header[8] && out[9]
        == header[9]);
    lemma_size_groups(size);
    assert(header_size_field(out) == size);
    assert(!announces_footer(out));
    assert(out.subrange(header.len() as int, out.len() as int) =~= audio);
}

/// The fields and pictures of a write are ones that id3's reader takes back
/// unchanged: no field ends with NUL, a new cover that is written has an
/// ASCII MIME type without NUL, and, without a new cover, every kept picture
/// reads back.
pub open spec fn write_reads_back(
    title: Seq<char>,
    artist: Seq<char>,
    album: Seq<char>,
    kept: Option<Seq<PictureModel>>,
    cover: Option<(Seq<u8>, Seq<char>)>,
) -> bool {
    &&& no_trailing_nul(title)
    &&& no_trailing_nul(artist)
    &&& no_trailing_nul(album)
    &&& match cover {
        Some((data, mime)) => data.len() > 0 && mime.len() > 0 ==> ascii_without_nul(mime),
        None => match kept {
            Some(pics) => forall|i: int| 0 <= i < pics.len() ==> #[trigger] picture_reads_back(pics[i]),
            None => true,
        },
    }
}

proof fn lemma_with_text_reads_back(frames: Seq<FrameModel>, id: Seq<char>, t: Seq<char>)
    requires
        conflict_free(frames),
        all_read_back(frames),
        reads_back(text_frame(id, t)),
    ensures
        conflict_free(with_text(frames, id, t)),
        all_read_back(with_text(frames, id, t)),
{
    if t.len() > 0 {
        lemma_added_frame_conflict_free(frames, text_frame(id, t));
        lemma_added_frame_reads_back(frames, text_frame(id, t));
    }
}

proof fn lemma_with_pictures_reads_back(frames: Seq<FrameModel>, pics: Seq<PictureModel>)
    requires
        conflict_free(frames),
        all_read_back(frames),
        forall|i: int| 0 <= i < pics.len() ==> #[trigger] picture_reads_back(pics[i]),
    ensures
        conflict_free(with_pictures(frames, pics)),
        all_read_back(with_pictures(frames, pics)),
    decreases pics.len(),
{
    if pics.len() > 0 {
        let init = pics.drop_last();
        assert forall|i: int| 0 <= i < init.len() implies #[trigger] picture_reads_back(init[i]) by {
            assert(init[i] == pics[i]);
        }
        lemma_with_pictures_reads_back(frames, init);
        assert(picture_reads_back(pics[pics.len() - 1]));
        reveal_strlit("APIC");
        let pf = picture_frame(pics.last());
        lemma_added_frame_conflict_free(with_pictures(frames, init), pf);
        lemma_added_frame_reads_back(with_pictures(frames, init), pf);
    }
}

/// The frames of a write whose fields and pictures read back are free of
/// conflicts, and each of them decodes to itself.
pub proof fn lemma_written_frames_read_back(
    title: Seq<char>,
    artist: Seq<char>,
    album: Seq<char>,
    kept: Option<Seq<PictureModel>>,
    cover: Option<(Seq<u8>, Seq<char>)>,
)
    requires
        write_reads_back(title, artist, album, kept, cover),
    ensures
        conflict_free(written_frames(title, artist, album, kept, cover)),
        all_read_back(written_frames(title, artist, album, kept, cover)),
{
    reveal_strlit("TIT2");
    reveal_strlit("TPE1");
    reveal_strlit("TALB");
    reveal_strlit("TXXX");
    reveal_strlit("TIPL");
    reveal_strlit("TMCL");
    reveal_strlit("APIC");
    let f0 = Seq::<FrameModel>::empty();
    assert(reads_back(text_frame("TIT2"@, title))) by {
        assert("TIT2"@[1] != "TXXX"@[1]);
        assert("TIT2"@[2] != "TIPL"@[2]);
        assert("TIT2"@[1] != "TMCL"@[1]);
    }
    assert(reads_back(text_frame("TPE1"@, artist))) by {
        assert("TPE1"@[1] != "TXXX"@[1]);
        assert("TPE1"@[1] != "TIPL"@[1]);
        assert("TPE1"@[1] != "TMCL"@[1]);
    }
    assert(reads_back(text_frame("TALB"@, album))) by {
        assert("TALB"@[1] != "TXXX"@[1]);
        assert("TALB"@[1] != "TIPL"@[1]);
        assert("TALB"@[1] != "TMCL"@[1]);
    }
    lemma_with_text_reads_back(f0, "TIT2"@, title);
    let f1 = with_text(f0, "TIT2"@, title);
    lemma_with_text_reads_back(f1, "TPE1"@, artist);
    let f2 = with_text(f1, "TPE1"@, artist);
    lemma_with_text_reads_back(f2, "TALB"@, album);
    let f3 = with_text(f2, "TALB"@, album);
    match cover {
        Some((data, mime)) => {
            if data.len() > 0 && mime.len() > 0 {
                let pf = picture_frame(front_cover(data, mime));
                assert(!Seq::<char>::empty().contains('\0'));
                lemma_added_frame_conflict_free(f3, pf);
                lemma_added_frame_reads_back(f3, pf);
            }
        },
        None => match kept {
            Some(pics) => {
                lemma_with_pictures_reads_back(f3, pics);
            },
            None => {},
        },
    }
}

/// Writes the metadata into an MP3 file: a new ID3v2.4 tag holding the
/// non-empty title, artist and album and a cover, followed by `audio`.
/// The cover is `new_cover` (data and MIME type) as the front cover when one
/// is given, and then only if neither part is empty; without a new cover the
/// pictures of `keep_cover_from` are carried over. `None` when the tag cannot
/// be encoded. The frames must fit the 28-bit size field of the tag (see
/// [`mp3_tag_fits`]).
pub fn write_mp3_meta(
    audio: &[u8],
    view: &Mp3MetaView,
    keep_cover_from: Option<&Tag>,
    new_cover: Option<(Vec<u8>, String)>,
) -> (r: Option<Vec<u8>>)
    requires
        frames_len(frames_for(*view, keep_cover_from, new_cover)) < id3_size_limit(),
    ensures
        match r {
            Some(out) => written_file(frames_for(*view, keep_cover_from, new_cover), audio@)
                == Some(out@),
            None => written_file(frames_for(*view, keep_cover_from, new_cover), audio@) is None,
        },
        r matches Some(out) ==> {
            &&& id3v24_tag_bytes(
                out@.subrange(0, out@.len() - audio@.len()),
                frames_len(frames_for(*view, keep_cover_from, new_cover)),
            )
            &&& id3v2_tag_size(out@) == out@.len() - audio@.len()
            &&& out@.subrange(id3v2_tag_size(out@), out@.len() as int) == audio@
            &&& id3_read(out@) is Some ==> read_outcome(out@).4 == audio@
        },
        keep_cover_from is None && new_cover is None ==> frame_pictures(
            frames_for(*view, keep_cover_from, new_cover),
        ).len() == 0,
        r matches Some(out) ==> (write_reads_back(
            view.title@,
            view.artist@,
            view.album@,
            kept_pictures(keep_cover_from),
            cover_model(new_cover),
        ) ==> {
            &&& id3_read(out@) == Some(frames_for(*view, keep_cover_from, new_cover))
            &&& read_outcome(out@) == (
                view.title@,
                view.artist@,
                view.album@,
                frame_pictures(frames_for(*view, keep_cover_from, new_cover)).len() > 0,
                audio@,
            )
        }),
{
    let ghost frames = frames_for(*view, keep_cover_from, new_cover);
    proof {
        lemma_written_tag_holds_edits(
            view.title@,
            view.artist@,
            view.album@,
            kept_pictures(keep_cover_from),
            cover_model(new_cover),
        );
    }
    let mut tag = new_tag();
    let ghost f0 = tag_frames(tag);
    if !view.title.as_str().is_empty() {
        proof { crate::id3_tag::lemma_added_frame_plain(f0, text_frame("TIT2"@, view.title@)); }
        set_title(&mut tag, view.title.clone());
    }
    proof { lemma_with_text_plain(f0, "TIT2"@, view.title@); }
    let ghost f1 = tag_frames(tag);
    if !view.artist.as_str().is_empty() {
        proof { crate::id3_tag::lemma_added_frame_plain(f1, text_frame("TPE1"@, view.artist@)); }
        set_artist(&mut tag, view.artist.clone());
    }
    proof { lemma_with_text_plain(f1, "TPE1"@, view.artist@); }
    let ghost f2 = tag_frames(tag);
    if !view.album.as_str().is_empty() {
        proof { crate::id3_tag::lemma_added_frame_plain(f2, text_frame("TALB"@, view.album@)); }
        set_album(&mut tag, view.album.clone());
    }
    proof { lemma_with_text_plain(f2, "TALB"@, view.album@); }
    let ghost f3 = tag_frames(tag);
    assert(f3 == with_text(
        with_text(with_text(Seq::empty(), "TIT2"@, view.title@), "TPE1"@, view.artist@),
        "TALB"@,
        view.album@,
    ));
    match new_cover {
        Some((data, mime)) => {
            if data.len() > 0 && !mime.as_str().is_empty() {
                proof {
                    crate::id3_tag::lemma_added_frame_plain(
                        f3,
                        picture_frame(front_cover(data@, mime@)),
                    );
                }
                add_picture(&mut tag, mime, FRONT_COVER_CODE, String::new(), data);
            }
        },
        None => {
            match keep_cover_from {
                Some(old) => {
                    let n = picture_count(old);
                    let ghost models = frame_pictures(tag_frames(*old));
                    let mut k: usize = 0;
                    while k < n
                        invariant
                            k <= n,
                            n == models.len(),
                            models == frame_pictures(tag_frames(*old)),
                            all_plain(tag_frames(tag)),
                            tag_frames(tag) == with_pictures(f3, models.take(k as int)),
                        decreases n - k,
                    {
                        let ghost before = tag_frames(tag);
                        proof {
                            crate::id3_tag::lemma_added_frame_plain(
                                before,
                                picture_frame(models[k as int]),
                            );
                        }
                        add_picture_from(&mut tag, old, k);
                        assert(models.take(k + 1).drop_last() =~= models.take(k as int));
                        k = k + 1;
                    }
                    assert(models.take(n as int) =~= models);
                },
                None => {},
            }
        },
    }
    assert(tag_frames(tag) == frames);
    match write_tag(&tag, TagVersion::Id3v24) {
        Some(header) => {
            let mut out = header;
            out.extend_from_slice(audio);
            assert(out@ =~= header@ + audio@);
            proof {
                crate::id3_tag::lemma_frames_len_nonneg(frames);
                lemma_tag_then_audio(header@, frames_len(frames), audio@);
                assert(out@.subrange(0, out@.len() - audio@.len()) =~= header@);
                let kept = kept_pictures(keep_cover_from);
                let cover = cover_model(new_cover);
                if write_reads_back(view.title@, view.artist@, view.album@, kept, cover) {
                    lemma_written_frames_read_back(view.title@, view.artist@, view.album@, kept, cover);
                    lemma_re_added_conflict_free(frames);
                    assert(id3_read(header@ + audio@) == Some(frames));
                    lemma_written_tag_holds_edits(view.title@, view.artist@, view.album@, kept, cover);
                    assert(text_or_empty(frame_text(frames, "TIT2"@)) =~= view.title@);
                    assert(text_or_empty(frame_text(frames, "TPE1"@)) =~= view.artist@);
                    assert(text_or_empty(frame_text(frames, "TALB"@)) =~= view.album@);
                }
            }
            Some(out)
        },
        None => None,
    }
}

/// The encoded sizes of the pictures' frames, added up.
pub open spec fn pictures_len(pics: Seq<PictureModel>) -> int
    decreases pics.len(),
{
    if pics.len() == 0 {
        0
    } else {
        pictures_len(pics.drop_last()) + picture_frame_len(pics.last())
    }
}

/// The encoded size of a text field's frame where the field is written.
pub open spec fn field_len(t: Seq<char>) -> int {
    if t.len() > 0 {
        text_frame_len(t)
    } else {
        0
    }
}

/// The encoded size of the pictures written: the new cover's frame, or the
/// frames of all the kept pictures.
pub open spec fn cover_part_len(kept: Option<Seq<PictureModel>>, cover: Option<(Seq<u8>, Seq<char>)>) -> int {
    match cover {
        Some((data, mime)) => if data.len() > 0 && mime.len() > 0 {
            picture_frame_len(front_cover(data, mime))
        } else {
            0
        },
        None => match kept {
            Some(pics) => pictures_len(pics),
            None => 0,
        },
    }
}

/// The encoded size of the frames that [`write_mp3_meta`] writes, counting
/// every frame added as if none replaced another. Only a kept picture can be
/// replaced, by a later kept picture of the same type, so this is the exact
/// size unless two kept pictures share a type, and never less than it.
pub open spec fn written_size_bound(
    title: Seq<char>,
    artist: Seq<char>,
    album: Seq<char>,
    kept: Option<Seq<PictureModel>>,
    cover: Option<(Seq<u8>, Seq<char>)>,
) -> int {
    field_len(title) + field_len(artist) + field_len(album) + cover_part_len(kept, cover)
}

proof fn lemma_pictures_len_prefix(pics: Seq<PictureModel>, k: int)
    requires
        0 <= k <= pics.len(),
    ensures
        0 <= pictures_len(pics.take(k)) <= pictures_len(pics),
    decreases pics.len() - k,
{
    if k < pics.len() {
        lemma_pictures_len_prefix(pics, k + 1);
        let t = pics.take(k + 1);
        assert(t.drop_last() =~= pics.take(k));
        assert(pictures_len(t) == pictures_len(t.drop_last()) + picture_frame_len(t.last()));
    } else {
        assert(pics.take(k) =~= pics);
    }
    lemma_pictures_len_nonneg(pics.take(k));
}

proof fn lemma_pictures_len_nonneg(pics: Seq<PictureModel>)
    ensures
        pictures_len(pics) >= 0,
    decreases pics.len(),
{
    if pics.len() > 0 {
        lemma_pictures_len_nonneg(pics.drop_last());
    }
}

proof fn lemma_with_text_len(frames: Seq<FrameModel>, id: Seq<char>, t: Seq<char>)
    ensures
        frames_len(with_text(frames, id, t)) <= frames_len(frames) + field_len(t),
{
    if t.len() > 0 {
        lemma_frames_len_added(frames, text_frame(id, t));
    }
}

proof fn lemma_with_pictures_len(frames: Seq<FrameModel>, pics: Seq<PictureModel>)
    ensures
        frames_len(with_pictures(frames, pics)) <= frames_len(frames) + pictures_len(pics),
    decreases pics.len(),
{
    if pics.len() > 0 {
        lemma_with_pictures_len(frames, pics.drop_last());
        lemma_frames_len_added(with_pictures(frames, pics.drop_last()), picture_frame(pics.last()));
    }
}

/// The frames written are never larger than [`written_size_bound`].
pub proof fn lemma_written_size_bound(
    title: Seq<char>,
    artist: Seq<char>,
    album: Seq<char>,
    kept: Option<Seq<PictureModel>>,
    cover: Option<(Seq<u8>, Seq<char>)>,
)
    ensures
        frames_len(written_frames(title, artist, album, kept, cover)) <= written_size_bound(
            title,
            artist,
            album,
            kept,
            cover,
        ),
        cover_part_len(kept, cover) >= 0,
{
    let f0 = Seq::<FrameModel>::empty();
    let f1 = with_text(f0, "TIT2"@, title);
    let f2 = with_text(f1, "TPE1"@, artist);
    let f3 = with_text(f2, "TALB"@, album);
    assert(frames_len(f0) == 0);
    lemma_with_text_len(f0, "TIT2"@, title);
    lemma_with_text_len(f1, "TPE1"@, artist);
    lemma_with_text_len(f2, "TALB"@, album);
    match cover {
        Some((data, mime)) => {
            if data.len() > 0 && mime.len() > 0 {
                lemma_frames_len_added(f3, picture_frame(front_cover(data, mime)));
            }
        },
        None => match kept {
            Some(pics) => {
                lemma_with_pictures_len(f3, pics);
                lemma_pictures_len_nonneg(pics);
            },
            None => {},
        },
    }
}

/// The frames of the three text fields: no picture, no `APIC` frame, and the
/// size of the non-empty fields' frames.
proof fn lemma_field_frames(title: Seq<char>, artist: Seq<char>, album: Seq<char>)
    ensures
        ({
            let f3 = with_text(
                with_text(with_text(Seq::empty(), "TIT2"@, title), "TPE1"@, artist),
                "TALB"@,
                album,
            );
            &&& !has_id(f3, "APIC"@)
            &&& frame_pictures(f3).len() == 0
            &&& frames_len(f3) == field_len(title) + field_len(artist) + field_len(album)
        }),
{
    reveal_strlit("TIT2");
    reveal_strlit("TPE1");
    reveal_strlit("TALB");
    reveal_strlit("APIC");
    let tit2 = "TIT2"@;
    let tpe1 = "TPE1"@;
    let talb = "TALB"@;
    let apic = "APIC"@;
    assert(tit2 != tpe1 && tit2 != talb && tpe1 != talb) by {
        assert(tit2[1] != tpe1[1]);
        assert(tit2[1] != talb[1]);
        assert(tpe1[1] != talb[1]);
    }
    assert(apic != tit2 && apic != tpe1 && apic != talb) by {
        assert(apic[0] != tit2[0]);
        assert(apic[0] != tpe1[0]);
        assert(apic[0] != talb[0]);
    }
    let f0 = Seq::<FrameModel>::empty();
    lemma_with_text_fresh(f0, tit2, title);
    let f1 = with_text(f0, tit2, title);
    assert(!has_id(f1, tpe1));
    lemma_with_text_fresh(f1, tpe1, artist);
    let f2 = with_text(f1, tpe1, artist);
    assert(!has_id(f2, talb)) by {
        if has_id(f2, talb) {
            let i = choose|i: int| 0 <= i < f2.len() && #[trigger] f2[i].id == talb;
            if artist.len() > 0 && i == f2.len() - 1 {
            } else {
                assert(f1[i].id == talb);
            }
        }
    }
    lemma_with_text_fresh(f2, talb, album);
    let f3 = with_text(f2, talb, album);
    assert(frames_len(f0) == 0);
    if title.len() > 0 {
        crate::id3_tag::lemma_frames_len_push(f0, text_frame(tit2, title));
        lemma_pictures_after_push(f0, text_frame(tit2, title));
    }
    if artist.len() > 0 {
        crate::id3_tag::lemma_frames_len_push(f1, text_frame(tpe1, artist));
        lemma_pictures_after_push(f1, text_frame(tpe1, artist));
    }
    if album.len() > 0 {
        crate::id3_tag::lemma_frames_len_push(f2, text_frame(talb, album));
        lemma_pictures_after_push(f2, text_frame(talb, album));
    }
    assert(!has_id(f3, apic)) by {
        if has_id(f3, apic) {
            let i = choose|i: int| 0 <= i < f3.len() && #[trigger] f3[i].id == apic;
            assert(f3[i].id == tit2 || f3[i].id == tpe1 || f3[i].id == talb);
        }
    }
}

/// [`written_size_bound`] is the exact size of the frames written when a new
/// cover is given, when there is no tag to keep pictures from, or when no two
/// kept pictures share a type.
pub proof fn lemma_written_size_exact(
    title: Seq<char>,
    artist: Seq<char>,
    album: Seq<char>,
    kept: Option<Seq<PictureModel>>,
    cover: Option<(Seq<u8>, Seq<char>)>,
)
    requires
        cover is None ==> (kept matches Some(pics) ==> distinct_picture_types(pics)),
    ensures
        frames_len(written_frames(title, artist, album, kept, cover)) == written_size_bound(
            title,
            artist,
            album,
            kept,
            cover,
        ),
{
    lemma_field_frames(title, artist, album);
    let f3 = with_text(
        with_text(with_text(Seq::empty(), "TIT2"@, title), "TPE1"@, artist),
        "TALB"@,
        album,
    );
    match cover {
        Some((data, mime)) => {
            if data.len() > 0 && mime.len() > 0 {
                let pf = picture_frame(front_cover(data, mime));
                lemma_no_conflict_without_id(f3, pf);
                lemma_frames_len_added(f3, pf);
            }
        },
        None => match kept {
            Some(pics) => {
                lemma_kept_pictures(f3, pics);
            },
            None => {},
        },
    }
}

/// Adds `term + extra` to a running size below the limit, or reports that the
/// sum reaches the limit.
fn add_size(total: u64, term: usize, extra: u64) -> (r: Option<u64>)
    requires
        total < id3_size_limit(),
        extra <= 14,
    ensures
        match r {
            Some(t) => t == total + term + extra && t < id3_size_limit(),
            None => total + term + extra >= id3_size_limit(),
        },
{
    if term as u64 >= 0x1000_0000 {
        return None;
    }
    let t = total + term as u64 + extra;
    if t >= 0x1000_0000 {
        None
    } else {
        Some(t)
    }
}

/// The number of bytes of the UTF-8 encoding of `s`.
fn utf8_size(s: &String) -> (n: usize)
    ensures
        n == crate::id3_tag::utf8_len(s@),
{
    s.as_str().as_bytes().len()
}

/// Whether the tag that [`write_mp3_meta`] writes for these arguments fits the
/// 28-bit size field of an ID3v2 tag, judged by [`written_size_bound`]; when
/// it does, [`write_mp3_meta`] may be called.
pub fn mp3_tag_fits(
    view: &Mp3MetaView,
    keep_cover_from: Option<&Tag>,
    new_cover: &Option<(Vec<u8>, String)>,
) -> (r: bool)
    ensures
        r == (written_size_bound(
            view.title@,
            view.artist@,
            view.album@,
            kept_pictures(keep_cover_from),
            cover_model(*new_cover),
        ) < id3_size_limit()),
        r ==> frames_len(frames_for(*view, keep_cover_from, *new_cover)) < id3_size_limit(),
        (new_cover is None ==> (kept_pictures(keep_cover_from) matches Some(pics)
            ==> distinct_picture_types(pics))) ==> (r == (frames_len(
            frames_for(*view, keep_cover_from, *new_cover),
        ) < id3_size_limit())),
{
    let ghost kept = kept_pictures(keep_cover_from);
    let ghost cover = cover_model(*new_cover);
    proof {
        lemma_written_size_bound(view.title@, view.artist@, view.album@, kept, cover);
        if cover is None ==> (kept matches Some(pics) ==> distinct_picture_types(pics)) {
            lemma_written_size_exact(view.title@, view.artist@, view.album@, kept, cover);
        }
    }
    let mut total: u64 = 0;
    if !view.title.as_str().is_empty() {
        match add_size(total, utf8_size(&view.title), 11) {
            Some(t) => total = t,
            None => return false,
        }
    }
    if !view.artist.as_str().is_empty() {
        match add_size(total, utf8_size(&view.artist), 11) {
            Some(t) => total = t,
            None => return false,
        }
    }
    if !view.album.as_str().is_empty() {
        match add_size(total, utf8_size(&view.album), 11) {
            Some(t) => total = t,
            None => return false,
        }
    }
    assert(total == field_len(view.title@) + field_len(view.artist@) + field_len(view.album@));
    match new_cover {
        Some((data, mime)) => {
            if data.len() > 0 && !mime.as_str().is_empty() {
                match add_size(total, data.len(), 14) {
                    Some(t) => total = t,
                    None => return false,
                }
                match add_size(total, utf8_size(mime), 0) {
                    Some(t) => total = t,
                    None => return false,
                }
            }
            true
        },
        None => match keep_cover_from {
            Some(old) => {
                let parts = picture_parts(old);
                let ghost models = frame_pictures(tag_frames(*old));
                let ghost base = total as int;
                let mut k: usize = 0;
                while k < parts.len()
                    invariant
                        k <= parts@.len(),
                        parts@.len() == models.len(),
                        forall|i: int|
                            0 <= i < parts@.len() ==> picture_parts_of(
                                #[trigger] parts@[i],
                                models[i],
                            ),
                        total == base + pictures_len(models.take(k as int)),
                        total < id3_size_limit(),
                        kept == kept_pictures(keep_cover_from),
                        cover == cover_model(*new_cover),
                        frames_len(frames_for(*view, keep_cover_from, *new_cover))
                            <= written_size_bound(view.title@, view.artist@, view.album@, kept, cover),
                        (cover is None ==> (kept matches Some(pics) ==> distinct_picture_types(
                            pics,
                        ))) ==> frames_len(frames_for(*view, keep_cover_from, *new_cover))
                            == written_size_bound(view.title@, view.artist@, view.album@, kept, cover),
                        base + pictures_len(models) == written_size_bound(
                            view.title@,
                            view.artist@,
                            view.album@,
                            kept,
                            cover,
                        ),
                    decreases parts@.len() - k,
                {
                    let ghost before = total as int;
                    proof {
                        lemma_pictures_len_prefix(models, k + 1);
                        let t = models.take(k + 1);
                        assert(t.drop_last() =~= models.take(k as int));
                        assert(t.last() == models[k as int]);
                        assert(pictures_len(t) == pictures_len(models.take(k as int))
                            + picture_frame_len(models[k as int]));
                        assert(picture_parts_of(parts@[k as int], models[k as int]));
                        assert(written_size_bound(view.title@, view.artist@, view.album@, kept, cover)
                            >= total + picture_frame_len(models[k as int]));
                    }
                    let (mime, description, data) = &parts[k];
                    match add_size(total, data.len(), 14) {
                        Some(t) => total = t,
                        None => return false,
                    }
                    match add_size(total, utf8_size(mime), 0) {
                        Some(t) => total = t,
                        None => return false,
                    }
                    match add_size(total, utf8_size(description), 0) {
                        Some(t) => total = t,
                        None => return false,
                    }
                    k = k + 1;
                }
                assert(models.take(k as int) =~= models);
                true
            },
            None => true,
        },
    }
}

/// Setting a field that no frame holds yet appends its frame.
proof fn lemma_with_text_fresh(frames: Seq<FrameModel>, id: Seq<char>, t: Seq<char>)
    requires
        !has_id(frames, id),
    ensures
        with_text(frames, id, t) == (if t.len() > 0 {
            frames.push(text_frame(id, t))
        } else {
            frames
        }),
{
    lemma_no_conflict_without_id(frames, text_frame(id, t));
}

/// Adding pictures keeps the text of every identifier other than `APIC`.
proof fn lemma_with_pictures_keeps_text(
    frames: Seq<FrameModel>,
    pics: Seq<PictureModel>,
    id: Seq<char>,
)
    requires
        id != "APIC"@,
    ensures
        frame_text(with_pictures(frames, pics), id) == frame_text(frames, id),
    decreases pics.len(),
{
    if pics.len() > 0 {
        lemma_with_pictures_keeps_text(frames, pics.drop_last(), id);
        lemma_text_after_add(with_pictures(frames, pics.drop_last()), picture_frame(pics.last()), id);
    }
}

/// No two of the pictures are of the same picture type.
pub open spec fn distinct_picture_types(pics: Seq<PictureModel>) -> bool {
    forall|i: int, j: int|
        0 <= i < pics.len() && 0 <= j < pics.len() && i != j ==> #[trigger] pics[i].picture_type
            != #[trigger] pics[j].picture_type
}

/// Carrying pictures of distinct types over to frames without pictures keeps
/// all of them, in order; every `APIC` frame then holds one of them.
proof fn lemma_kept_pictures(frames: Seq<FrameModel>, pics: Seq<PictureModel>)
    requires
        !has_id(frames, "APIC"@),
        frame_pictures(frames).len() == 0,
        distinct_picture_types(pics),
    ensures
        frame_pictures(with_pictures(frames, pics)) == pics,
        frames_len(with_pictures(frames, pics)) == frames_len(frames) + pictures_len(pics),
        forall|i: int|
            0 <= i < with_pictures(frames, pics).len() && (#[trigger] with_pictures(
                frames,
                pics,
            )[i]).id == "APIC"@ ==> exists|j: int|
                0 <= j < pics.len() && with_pictures(frames, pics)[i].content
                    == ContentModel::Picture(#[trigger] pics[j]),
    decreases pics.len(),
{
    if pics.len() == 0 {
        assert(frame_pictures(frames) =~= pics);
        assert forall|i: int|
            0 <= i < frames.len() && (#[trigger] frames[i]).id == "APIC"@ implies false by {
            assert(has_id(frames, "APIC"@));
        }
    } else {
        let init = pics.drop_last();
        let p = pics.last();
        assert(distinct_picture_types(init)) by {
            assert forall|i: int, j: int|
                0 <= i < init.len() && 0 <= j < init.len() && i != j implies #[trigger] init[i].picture_type
                != #[trigger] init[j].picture_type by {
                assert(init[i] == pics[i] && init[j] == pics[j]);
            }
        }
        lemma_kept_pictures(frames, init);
        let g = with_pictures(frames, init);
        let pf = picture_frame(p);
        assert forall|i: int| 0 <= i < g.len() implies !frames_conflict(#[trigger] g[i], pf) by {
            if g[i].id == "APIC"@ {
                let j = choose|j: int|
                    0 <= j < init.len() && g[i].content == ContentModel::Picture(#[trigger] init[j]);
                assert(init[j] == pics[j]);
                assert(pics[j].picture_type != pics[pics.len() - 1].picture_type);
                reveal_strlit("APIC");
                reveal_strlit("WCOM");
                reveal_strlit("WOAR");
                assert("APIC"@[0] != "WCOM"@[0]);
                assert("APIC"@[0] != "WOAR"@[0]);
            }
        }
        lemma_no_conflict(g, pf);
        assert(with_pictures(frames, pics) == g.push(pf));
        crate::id3_tag::lemma_frames_len_push(g, pf);
        lemma_pictures_after_push(g, pf);
        assert(frame_pictures(g.push(pf)) =~= pics);
        assert forall|i: int|
            0 <= i < g.push(pf).len() && (#[trigger] g.push(pf)[i]).id == "APIC"@ implies exists|j: int|
                0 <= j < pics.len() && g.push(pf)[i].content == ContentModel::Picture(#[trigger] pics[j]) by {
            if i == g.len() {
                assert(g.push(pf)[i].content == ContentModel::Picture(pics[pics.len() - 1]));
            } else {
                assert(g.push(pf)[i] == g[i]);
                let j = choose|j: int|
                    0 <= j < init.len() && g[i].content == ContentModel::Picture(#[trigger] init[j]);
                assert(init[j] == pics[j]);
            }
        }
    }
}

/// The tag that [`write_mp3_meta`] writes holds each non-empty field as the
/// text of its frame (title `TIT2`, artist `TPE1`, album `TALB`) and nothing
/// for an empty field; a usable new cover is its only picture, as the front
/// cover; a new cover with no bytes or no MIME type leaves it without
/// pictures, and so does
/// having neither a new cover nor a tag to keep pictures from; without a new
/// cover, pictures of distinct types are all carried over from the kept tag.
pub proof fn lemma_written_tag_holds_edits(
    title: Seq<char>,
    artist: Seq<char>,
    album: Seq<char>,
    kept: Option<Seq<PictureModel>>,
    cover: Option<(Seq<u8>, Seq<char>)>,
)
    ensures
        ({
            let w = written_frames(title, artist, album, kept, cover);
            &&& frame_text(w, "TIT2"@) == (if title.len() > 0 { Some(title) } else { None })
            &&& frame_text(w, "TPE1"@) == (if artist.len() > 0 { Some(artist) } else { None })
            &&& frame_text(w, "TALB"@) == (if album.len() > 0 { Some(album) } else { None })
            &&& cover matches Some((data, mime)) ==> if data.len() > 0 && mime.len() > 0 {
                frame_pictures(w) == seq![front_cover(data, mime)]
            } else {
                frame_pictures(w).len() == 0
            }
            &&& (cover is None && kept is None) ==> frame_pictures(w).len() == 0
            &&& cover is None ==> (kept matches Some(pics) ==> (distinct_picture_types(pics)
                ==> frame_pictures(w) == pics))
        }),
{
    reveal_strlit("TIT2");
    reveal_strlit("TPE1");
    reveal_strlit("TALB");
    reveal_strlit("APIC");
    let tit2 = "TIT2"@;
    let tpe1 = "TPE1"@;
    let talb = "TALB"@;
    let apic = "APIC"@;
    assert(tit2 != tpe1 && tit2 != talb && tpe1 != talb) by {
        assert(tit2[1] != tpe1[1]);
        assert(tit2[1] != talb[1]);
        assert(tpe1[1] != talb[1]);
    }
    assert(apic != tit2 && apic != tpe1 && apic != talb) by {
        assert(apic[0] != tit2[0]);
        assert(apic[0] != tpe1[0]);
        assert(apic[0] != talb[0]);
    }
    let f0 = Seq::<FrameModel>::empty();
    lemma_with_text_fresh(f0, tit2, title);
    let f1 = with_text(f0, tit2, title);
    assert(!has_id(f1, tpe1));
    lemma_with_text_fresh(f1, tpe1, artist);
    let f2 = with_text(f1, tpe1, artist);
    assert(!has_id(f2, talb)) by {
        if has_id(f2, talb) {
            let i = choose|i: int| 0 <= i < f2.len() && #[trigger] f2[i].id == talb;
            if artist.len() > 0 && i == f2.len() - 1 {
            } else {
                assert(f1[i].id == talb);
            }
        }
    }
    lemma_with_text_fresh(f2, talb, album);
    let f3 = with_text(f2, talb, album);
    // Texts after the three fields.
    if title.len() > 0 {
        lemma_text_of_new_id(f0, tit2, title);
    }
    if artist.len() > 0 {
        lemma_text_after_push(f1, text_frame(tpe1, artist), tit2);
        lemma_text_of_new_id(f1, tpe1, artist);
    }
    assert(frame_text(f1, tpe1) is None) by {
        if title.len() > 0 {
            lemma_text_after_push(f0, text_frame(tit2, title), tpe1);
        }
    }
    assert(frame_text(f2, talb) is None) by {
        if title.len() > 0 {
            lemma_text_after_push(f0, text_frame(tit2, title), talb);
        }
        if artist.len() > 0 {
            lemma_text_after_push(f1, text_frame(tpe1, artist), talb);
        }
    }
    if album.len() > 0 {
        lemma_text_after_push(f2, text_frame(talb, album), tit2);
        lemma_text_after_push(f2, text_frame(talb, album), tpe1);
        lemma_text_of_new_id(f2, talb, album);
    }
    // No pictures and no `APIC` frame after the three fields.
    assert(frame_pictures(f3).len() == 0) by {
        if title.len() > 0 {
            lemma_pictures_after_push(f0, text_frame(tit2, title));
        }
        if artist.len() > 0 {
            lemma_pictures_after_push(f1, text_frame(tpe1, artist));
        }
        if album.len() > 0 {
            lemma_pictures_after_push(f2, text_frame(talb, album));
        }
    }
    assert(!has_id(f3, apic)) by {
        if has_id(f3, apic) {
            let i = choose|i: int| 0 <= i < f3.len() && #[trigger] f3[i].id == apic;
            assert(f3[i].id == tit2 || f3[i].id == tpe1 || f3[i].id == talb);
        }
    }
    match cover {
        Some((data, mime)) => {
            if data.len() > 0 && mime.len() > 0 {
                let p = front_cover(data, mime);
                lemma_no_conflict_without_id(f3, picture_frame(p));
                lemma_text_after_push(f3, picture_frame(p), tit2);
                lemma_text_after_push(f3, picture_frame(p), tpe1);
                lemma_text_after_push(f3, picture_frame(p), talb);
                lemma_pictures_after_push(f3, picture_frame(p));
                assert(frame_pictures(f3.push(picture_frame(p))) =~= seq![p]);
            }
        },
        None => {
            match kept {
                Some(pics) => {
                    if distinct_picture_types(pics) {
                        lemma_kept_pictures(f3, pics);
                    }
                    lemma_with_pictures_keeps_text(f3, pics, tit2);
                    lemma_with_pictures_keeps_text(f3, pics, tpe1);
                    lemma_with_pictures_keeps_text(f3, pics, talb);
                },
                None => {},
            }
        },
    }
}

} // verus!
