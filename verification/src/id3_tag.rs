//! The `id3` crate's tag type and the few of its operations that the MP3
//! editor uses, each behind a trusted item, together with a model of what a
//! tag holds.

use vstd::prelude::*;
use id3::frame::{Picture, PictureType};
use id3::{Frame, Tag, TagLike, Version};
use std::io::Cursor;

verus! {

#[verifier::external_type_specification]
#[verifier::external_body]
pub struct ExTag(Tag);

/// The type of an embedded picture: one variant for each variant of the
/// crate's `PictureType`, under the same name.
pub ghost enum PictureKind {
    Other,
    Icon,
    OtherIcon,
    CoverFront,
    CoverBack,
    Leaflet,
    Media,
    LeadArtist,
    Artist,
    Conductor,
    Band,
    Composer,
    Lyricist,
    RecordingLocation,
    DuringRecording,
    DuringPerformance,
    ScreenCapture,
    BrightFish,
    Illustration,
    BandLogo,
    PublisherLogo,
    Undefined(u8),
}

/// An embedded picture (an `APIC` frame's content).
pub ghost struct PictureModel {
    pub mime_type: Seq<char>,
    pub picture_type: PictureKind,
    pub description: Seq<char>,
    pub data: Seq<u8>,
}

/// What a frame's content is, as far as the editor reads it.
pub ghost enum ContentModel {
    /// A text frame's string.
    Text(Seq<char>),
    /// A link frame's URL.
    Link(Seq<char>),
    /// A picture frame's content.
    Picture(PictureModel),
    /// Any other kind of content.
    Other,
}

/// One frame of a tag: its identifier, its content and whether it is plain,
/// that is: its identifier is a valid one, it carries neither preservation
/// flag, and no text encoding was chosen for it.
pub ghost struct FrameModel {
    pub id: Seq<char>,
    pub content: ContentModel,
    pub plain: bool,
}

/// The frames a tag holds, in order; a picture's `PictureType` is read as the
/// [`PictureKind`] variant of the same name.
pub uninterp spec fn tag_frames(tag: Tag) -> Seq<FrameModel>;

/// The frames of the tag that `Tag::read_from2` reads from a cursor over
/// `bytes`, or `None` on an error.
pub uninterp spec fn id3_read(bytes: Seq<u8>) -> Option<Seq<FrameModel>>;

/// What `Tag::write_to` with version ID3v2.4 writes for a tag of these frames,
/// or `None` on an error.
pub uninterp spec fn id3_write_v24(frames: Seq<FrameModel>) -> Option<Seq<u8>>;

/// The number of bytes of the UTF-8 encoding of `s`.
pub open spec fn utf8_len(s: Seq<char>) -> int {
    vstd::utf8::encode_utf8(s).len() as int
}

/// The encoded size of a plain text frame holding `t`: a 10-byte frame header,
/// the encoding byte and the UTF-8 text.
pub open spec fn text_frame_len(t: Seq<char>) -> int {
    11 + utf8_len(t)
}

/// The encoded size of a plain picture frame: a 10-byte frame header, the
/// encoding byte, the MIME type and its terminator, the picture type byte,
/// the UTF-8 description and its terminator, then the image data.
pub open spec fn picture_frame_len(p: PictureModel) -> int {
    14 + utf8_len(p.mime_type) + utf8_len(p.description) + p.data.len()
}

/// The encoded size of a plain frame in an ID3v2.4 tag: a link is written as
/// its UTF-8 bytes after the frame header (plain frames hold text, a link or
/// a picture; any other content is counted as its header).
pub open spec fn frame_len(f: FrameModel) -> int {
    match f.content {
        ContentModel::Text(t) => text_frame_len(t),
        ContentModel::Link(u) => 10 + utf8_len(u),
        ContentModel::Picture(p) => picture_frame_len(p),
        ContentModel::Other => 10,
    }
}

/// The encoded size of all the frames, one after the other.
pub open spec fn frames_len(frames: Seq<FrameModel>) -> int
    decreases frames.len(),
{
    if frames.len() == 0 {
        0
    } else {
        frame_len(frames[0]) + frames_len(frames.drop_first())
    }
}

/// The largest size (exclusive) that the 28 bits of an ID3v2 size field hold.
pub open spec fn id3_size_limit() -> int {
    0x1000_0000
}

/// `bytes` is an ID3v2.4 tag of `size` bytes of frames: the ten header bytes
/// `ID3`, version 4, revision 0, no flags and the size as four 7-bit groups,
/// most significant first, followed by the frames.
pub open spec fn id3v24_tag_bytes(bytes: Seq<u8>, size: int) -> bool {
    &&& bytes.len() == 10 + size
    &&& bytes[0] == 0x49 && bytes[1] == 0x44 && bytes[2] == 0x33
    &&& bytes[3] == 4 && bytes[4] == 0 && bytes[5] == 0
    &&& bytes[6] == (size / 0x200000) % 128
    &&& bytes[7] == (size / 0x4000) % 128
    &&& bytes[8] == (size / 0x80) % 128
    &&& bytes[9] == size % 128
}

/// Every frame is plain and holds text or a picture: the frames of a tag built
/// from `Tag::new` by the setters below.
pub open spec fn all_plain(frames: Seq<FrameModel>) -> bool {
    forall|i: int|
        0 <= i < frames.len() ==> #[trigger] frames[i].plain && !(frames[i].content is Other)
}

/// The fresh text frame that `Frame::text(id, text)` makes.
pub open spec fn text_frame(id: Seq<char>, text: Seq<char>) -> FrameModel {
    FrameModel { id, content: ContentModel::Text(text), plain: true }
}

/// The fresh picture frame that `Frame::from(picture)` makes.
pub open spec fn picture_frame(p: PictureModel) -> FrameModel {
    FrameModel { id: "APIC"@, content: ContentModel::Picture(p), plain: true }
}

/// The text of the first frame with identifier `id`, when that frame is a text
/// frame (`TagLike::text_for_frame_id`).
pub open spec fn frame_text(frames: Seq<FrameModel>, id: Seq<char>) -> Option<Seq<char>>
    decreases frames.len(),
{
    if frames.len() == 0 {
        None
    } else if frames[0].id == id {
        match frames[0].content {
            ContentModel::Text(t) => Some(t),
            _ => None,
        }
    } else {
        frame_text(frames.drop_first(), id)
    }
}

/// The pictures among the frames, in order (`Tag::pictures`).
pub open spec fn frame_pictures(frames: Seq<FrameModel>) -> Seq<PictureModel>
    decreases frames.len(),
{
    if frames.len() == 0 {
        Seq::empty()
    } else {
        let rest = frame_pictures(frames.drop_first());
        match frames[0].content {
            ContentModel::Picture(p) => seq![p] + rest,
            _ => rest,
        }
    }
}

/// The URL of a link frame's content; `None` for any other content.
pub open spec fn link_of(c: ContentModel) -> Option<Seq<char>> {
    match c {
        ContentModel::Link(u) => Some(u),
        _ => None,
    }
}

/// Whether two frames without an encoding, each holding text, a link or a
/// picture, conflict, so that adding `new` replaces `old` (`Frame::compare`):
/// their identifiers are equal and, for `WCOM` and `WOAR`, so are their links
/// (or neither is a link); for other identifiers both hold text or a link, or
/// both hold pictures of one picture type.
pub open spec fn frames_conflict(old: FrameModel, new: FrameModel) -> bool {
    &&& old.id == new.id
    &&& if old.id == "WCOM"@ || old.id == "WOAR"@ {
        link_of(old.content) == link_of(new.content)
    } else {
        match (old.content, new.content) {
            (ContentModel::Text(_), ContentModel::Text(_)) => true,
            (ContentModel::Text(_), ContentModel::Link(_)) => true,
            (ContentModel::Link(_), ContentModel::Text(_)) => true,
            (ContentModel::Link(_), ContentModel::Link(_)) => true,
            (ContentModel::Picture(p), ContentModel::Picture(q)) => p.picture_type
                == q.picture_type,
            _ => false,
        }
    }
}

/// The position of the first frame that conflicts with `new`, if any.
pub open spec fn first_conflict(frames: Seq<FrameModel>, new: FrameModel) -> Option<int>
    decreases frames.len(),
{
    if frames.len() == 0 {
        None
    } else if frames_conflict(frames[0], new) {
        Some(0)
    } else {
        match first_conflict(frames.drop_first(), new) {
            Some(i) => Some(i + 1),
            None => None,
        }
    }
}

/// The frames after `TagLike::add_frame(new)`: the first conflicting frame,
/// if any, is removed, and `new` is appended.
pub open spec fn added_frame(frames: Seq<FrameModel>, new: FrameModel) -> Seq<FrameModel> {
    match first_conflict(frames, new) {
        Some(i) => frames.remove(i).push(new),
        None => frames.push(new),
    }
}

/// `bytes` start the way one of the formats that `Tag::read_from2` reads
/// starts: an ID3v2 header (`ID3` and at least seven more bytes), or at least
/// twelve bytes of an AIFF (`FORM`) or WAV (`RIFF`, then `WAVE` at byte 8) file.
pub open spec fn id3_reader_takes(bytes: Seq<u8>) -> bool {
    ||| bytes.len() >= 10 && bytes[0] == 0x49 && bytes[1] == 0x44 && bytes[2] == 0x33
    ||| bytes.len() >= 12 && bytes[0] == 0x46 && bytes[1] == 0x4f && bytes[2] == 0x52
        && bytes[3] == 0x4d
    ||| bytes.len() >= 12 && bytes[0] == 0x52 && bytes[1] == 0x49 && bytes[2] == 0x46
        && bytes[3] == 0x46 && bytes[8] == 0x57 && bytes[9] == 0x41 && bytes[10] == 0x56
        && bytes[11] == 0x45
}

/// Reads an ID3 tag from the start of `bytes`.
///
/// Trusted: calls `Tag::read_from2` on a `Cursor` over `bytes`; the contract
/// says that the frames of the tag it returns, or its failure, are what
/// [`id3_read`] names for these bytes, and that it fails on bytes that start
/// none of the formats it reads (it then decodes an ID3v2 header, which needs
/// `ID3` in ten bytes).
#[verifier::external_body]
pub(crate) fn read_tag(bytes: &[u8]) -> (r: Option<Tag>)
    ensures
        match r {
            Some(tag) => id3_read(bytes@) == Some(tag_frames(tag)),
            None => id3_read(bytes@) is None,
        },
        !id3_reader_takes(bytes@) ==> r is None,
{
    Tag::read_from2(Cursor::new(bytes)).ok()
}

/// An empty ID3v2.4 tag.
///
/// Trusted: calls `Tag::new`, which the crate documents as creating a tag
/// with no frames.
#[verifier::external_body]
pub(crate) fn new_tag() -> (t: Tag)
    ensures
        tag_frames(t) == Seq::<FrameModel>::empty(),
{
    Tag::new()
}

/// Sets the title.
///
/// Trusted: calls `TagLike::set_title`, which adds `Frame::text("TIT2", title)`
/// by `add_frame`; on a tag of plain frames the frames become [`added_frame`].
#[verifier::external_body]
pub(crate) fn set_title(tag: &mut Tag, title: String)
    ensures
        all_plain(tag_frames(*old(tag))) ==> tag_frames(*final(tag)) == added_frame(
            tag_frames(*old(tag)),
            text_frame("TIT2"@, title@),
        ),
{
    tag.set_title(title);
}

/// Sets the artist.
///
/// Trusted: calls `TagLike::set_artist`, which adds `Frame::text("TPE1", artist)`
/// by `add_frame`; on a tag of plain frames the frames become [`added_frame`].
#[verifier::external_body]
pub(crate) fn set_artist(tag: &mut Tag, artist: String)
    ensures
        all_plain(tag_frames(*old(tag))) ==> tag_frames(*final(tag)) == added_frame(
            tag_frames(*old(tag)),
            text_frame("TPE1"@, artist@),
        ),
{
    tag.set_artist(artist);
}

/// Sets the album.
///
/// Trusted: calls `TagLike::set_album`, which adds `Frame::text("TALB", album)`
/// by `add_frame`; on a tag of plain frames the frames become [`added_frame`].
#[verifier::external_body]
pub(crate) fn set_album(tag: &mut Tag, album: String)
    ensures
        all_plain(tag_frames(*old(tag))) ==> tag_frames(*final(tag)) == added_frame(
            tag_frames(*old(tag)),
            text_frame("TALB"@, album@),
        ),
{
    tag.set_album(album);
}

/// The picture type that a type code stands for in an `APIC` frame: codes 0
/// to 20 name the standard types, in order; any other code is undefined.
pub open spec fn kind_of_code(code: u8) -> PictureKind {
    match code {
        0 => PictureKind::Other,
        1 => PictureKind::Icon,
        2 => PictureKind::OtherIcon,
        3 => PictureKind::CoverFront,
        4 => PictureKind::CoverBack,
        5 => PictureKind::Leaflet,
        6 => PictureKind::Media,
        7 => PictureKind::LeadArtist,
        8 => PictureKind::Artist,
        9 => PictureKind::Conductor,
        10 => PictureKind::Band,
        11 => PictureKind::Composer,
        12 => PictureKind::Lyricist,
        13 => PictureKind::RecordingLocation,
        14 => PictureKind::DuringRecording,
        15 => PictureKind::DuringPerformance,
        16 => PictureKind::ScreenCapture,
        17 => PictureKind::BrightFish,
        18 => PictureKind::Illustration,
        19 => PictureKind::BandLogo,
        20 => PictureKind::PublisherLogo,
        b => PictureKind::Undefined(b),
    }
}

/// Adds a picture frame.
///
/// Trusted: builds a `Picture` of the given MIME type, description and data,
/// whose `PictureType` is the variant for the code `picture_type` (as id3's
/// reader maps the type byte: 0 to 20 the named types in declaration order,
/// any other code `Undefined`), and calls `TagLike::add_frame` with
/// `Frame::from` of it; on a tag of plain frames the frames become
/// [`added_frame`].
#[verifier::external_body]
pub(crate) fn add_picture(
    tag: &mut Tag,
    mime_type: String,
    picture_type: u8,
    description: String,
    data: Vec<u8>,
)
    ensures
        all_plain(tag_frames(*old(tag))) ==> tag_frames(*final(tag)) == added_frame(
            tag_frames(*old(tag)),
            picture_frame(
                PictureModel {
                    mime_type: mime_type@,
                    picture_type: kind_of_code(picture_type),
                    description: description@,
                    data: data@,
                },
            ),
        ),
{
    let picture_type = match picture_type {
        0 => PictureType::Other, 1 => PictureType::Icon, 2 => PictureType::OtherIcon,
        3 => PictureType::CoverFront, 4 => PictureType::CoverBack, 5 => PictureType::Leaflet,
        6 => PictureType::Media, 7 => PictureType::LeadArtist, 8 => PictureType::Artist,
        9 => PictureType::Conductor, 10 => PictureType::Band, 11 => PictureType::Composer,
        12 => PictureType::Lyricist, 13 => PictureType::RecordingLocation,
        14 => PictureType::DuringRecording, 15 => PictureType::DuringPerformance,
        16 => PictureType::ScreenCapture, 17 => PictureType::BrightFish,
        18 => PictureType::Illustration, 19 => PictureType::BandLogo,
        20 => PictureType::PublisherLogo, b => PictureType::Undefined(b),
    };
    let picture = Picture { mime_type, picture_type, description, data };
    let _ = tag.add_frame(Frame::from(picture));
}

/// Adds a copy of the `k`-th picture of `from`.
///
/// Trusted: calls `TagLike::add_frame` with `Frame::from` of a clone of the
/// `k`-th item of `from.pictures()`; on a tag of plain frames the frames
/// become [`added_frame`].
#[verifier::external_body]
pub(crate) fn add_picture_from(tag: &mut Tag, from: &Tag, k: usize)
    requires
        k < frame_pictures(tag_frames(*from)).len(),
    ensures
        all_plain(tag_frames(*old(tag))) ==> tag_frames(*final(tag)) == added_frame(
            tag_frames(*old(tag)),
            picture_frame(frame_pictures(tag_frames(*from))[k as int]),
        ),
{
    let picture = from.pictures().nth(k).unwrap().clone();
    let _ = tag.add_frame(Frame::from(picture));
}

/// The title (the text of the first `TIT2` frame).
///
/// Trusted: calls `TagLike::title`.
#[verifier::external_body]
pub(crate) fn title(tag: &Tag) -> (r: Option<String>)
    ensures
        match r {
            Some(s) => frame_text(tag_frames(*tag), "TIT2"@) == Some(s@),
            None => frame_text(tag_frames(*tag), "TIT2"@) is None,
        },
{
    tag.title().map(|s| s.to_string())
}

/// The artist (the text of the first `TPE1` frame).
///
/// Trusted: calls `TagLike::artist`.
#[verifier::external_body]
pub(crate) fn artist(tag: &Tag) -> (r: Option<String>)
    ensures
        match r {
            Some(s) => frame_text(tag_frames(*tag), "TPE1"@) == Some(s@),
            None => frame_text(tag_frames(*tag), "TPE1"@) is None,
        },
{
    tag.artist().map(|s| s.to_string())
}

/// The album (the text of the first `TALB` frame).
///
/// Trusted: calls `TagLike::album`.
#[verifier::external_body]
pub(crate) fn album(tag: &Tag) -> (r: Option<String>)
    ensures
        match r {
            Some(s) => frame_text(tag_frames(*tag), "TALB"@) == Some(s@),
            None => frame_text(tag_frames(*tag), "TALB"@) is None,
        },
{
    tag.album().map(|s| s.to_string())
}

/// The number of the tag's pictures.
///
/// Trusted: counts the items of `Tag::pictures`.
#[verifier::external_body]
pub(crate) fn picture_count(tag: &Tag) -> (r: usize)
    ensures
        r == frame_pictures(tag_frames(*tag)).len(),
{
    tag.pictures().count()
}

/// The MIME type, description and data of a picture, as plain values.
pub open spec fn picture_parts_of(parts: (String, String, Vec<u8>), p: PictureModel) -> bool {
    &&& parts.0@ == p.mime_type
    &&& parts.1@ == p.description
    &&& parts.2@ == p.data
}

/// The MIME type, description and data of each of the tag's pictures, in order.
///
/// Trusted: calls `Tag::pictures` and clones those three fields of each.
#[verifier::external_body]
pub(crate) fn picture_parts(tag: &Tag) -> (r: Vec<(String, String, Vec<u8>)>)
    ensures
        r@.len() == frame_pictures(tag_frames(*tag)).len(),
        forall|i: int|
            0 <= i < r@.len() ==> picture_parts_of(
                #[trigger] r@[i],
                frame_pictures(tag_frames(*tag))[i],
            ),
{
    tag.pictures().map(|p| (p.mime_type.clone(), p.description.clone(), p.data.clone())).collect()
}

/// The ID3v2 versions a tag can be written in.
#[derive(Clone, Copy, Debug, PartialEq, Eq, Structural)]
pub enum TagVersion {
    Id3v22,
    Id3v23,
    Id3v24,
}

/// Encodes the tag in the given version.
///
/// Trusted: calls `Tag::write_to` into an empty `Vec` with the `Version` of the
/// same name. Only ID3v2.4 is admitted: the sizes on which the encoder's
/// assertions depend are stated for it alone. The encoder asserts that each
/// frame's size and the size of all frames fit in 28 bits, which the
/// `requires` keeps. On a tag of plain frames (each written in UTF-8, without
/// padding or unsynchronisation) the outcome is the one [`id3_write_v24`]
/// names for its frames, and the bytes written are the ten-byte ID3v2.4
/// header of the frames' size followed by the frames. The reader
/// (`Tag::read_from2`) takes those frames back whatever follows them, each
/// frame added to the tag in turn ([`re_added`]), where every frame is one
/// that decodes to itself ([`reads_back`]).
#[verifier::external_body]
pub(crate) fn write_tag(tag: &Tag, version: TagVersion) -> (r: Option<Vec<u8>>)
    requires
        version == TagVersion::Id3v24,
        all_plain(tag_frames(*tag)),
        frames_len(tag_frames(*tag)) < id3_size_limit(),
    ensures
        match r {
            Some(b) => {
                &&& id3_write_v24(tag_frames(*tag)) == Some(b@)
                &&& id3v24_tag_bytes(b@, frames_len(tag_frames(*tag)))
                &&& all_read_back(tag_frames(*tag)) ==> forall|rest: Seq<u8>|
                    #[trigger] id3_read(b@ + rest) == Some(re_added(tag_frames(*tag)))
            },
            None => id3_write_v24(tag_frames(*tag)) is None,
        },
{
    let version = match version {
        TagVersion::Id3v22 => Version::Id3v22,
        TagVersion::Id3v23 => Version::Id3v23,
        TagVersion::Id3v24 => Version::Id3v24,
    };
    let mut out: Vec<u8> = Vec::new();
    match tag.write_to(&mut out, version) {
        Ok(()) => Some(out),
        Err(_) => None,
    }
}

/// The characters are all ASCII and none is NUL.
pub open spec fn ascii_without_nul(s: Seq<char>) -> bool {
    forall|i: int| 0 <= i < s.len() ==> 0 < #[trigger] (s[i] as u32) < 0x80
}

/// `s` does not end with a NUL character.
pub open spec fn no_trailing_nul(s: Seq<char>) -> bool {
    s.len() == 0 || s.last() != '\0'
}

/// A picture that id3's reader decodes to itself: its MIME type is ASCII
/// without NUL (read as Latin-1 up to a NUL), its description holds no NUL
/// (read up to a NUL), and its type is not an undefined one with a standard
/// type's code (read as the standard type).
pub open spec fn picture_reads_back(p: PictureModel) -> bool {
    &&& ascii_without_nul(p.mime_type)
    &&& !p.description.contains('\0')
    &&& !(p.picture_type matches PictureKind::Undefined(b) && b <= 20)
}

/// A frame that id3's ID3v2.4 reader decodes to itself: a text frame whose
/// identifier starts with `T` and is not `TXXX`, `TIPL` or `TMCL`, and whose
/// text does not end with NUL (the reader drops trailing NULs); or an `APIC`
/// frame of a picture that [`picture_reads_back`].
pub open spec fn reads_back(f: FrameModel) -> bool {
    match f.content {
        ContentModel::Text(t) => {
            &&& f.id.len() > 0
            &&& f.id[0] == 'T'
            &&& f.id != "TXXX"@
            &&& f.id != "TIPL"@
            &&& f.id != "TMCL"@
            &&& no_trailing_nul(t)
        },
        ContentModel::Picture(p) => f.id == "APIC"@ && picture_reads_back(p),
        _ => false,
    }
}

/// Every frame decodes to itself.
pub open spec fn all_read_back(frames: Seq<FrameModel>) -> bool {
    forall|i: int| 0 <= i < frames.len() ==> #[trigger] reads_back(frames[i])
}

/// The frames of a tag that starts empty and gets each of `frames` added in
/// turn by `TagLike::add_frame`.
pub open spec fn re_added(frames: Seq<FrameModel>) -> Seq<FrameModel>
    decreases frames.len(),
{
    if frames.len() == 0 {
        Seq::empty()
    } else {
        added_frame(re_added(frames.drop_last()), frames.last())
    }
}

/// Adding a plain text or picture frame to plain frames gives plain frames.
pub proof fn lemma_added_frame_plain(frames: Seq<FrameModel>, new: FrameModel)
    requires
        all_plain(frames),
        new.plain,
        !(new.content is Other),
    ensures
        all_plain(added_frame(frames, new)),
{
    lemma_first_conflict_in_range(frames, new);
    let r = added_frame(frames, new);
    assert forall|i: int| 0 <= i < r.len() implies #[trigger] r[i].plain && !(r[i].content is Other) by {
        match first_conflict(frames, new) {
            Some(k) => {
                assert(r == frames.remove(k).push(new));
                if i < r.len() - 1 {
                    if i < k {
                        assert(r[i] == frames[i]);
                    } else {
                        assert(r[i] == frames[i + 1]);
                    }
                } else {
                    assert(r[i] == new);
                }
            },
            None => {
                assert(r == frames.push(new));
                if i < r.len() - 1 {
                    assert(r[i] == frames[i]);
                } else {
                    assert(r[i] == new);
                }
            },
        }
    }
}

proof fn lemma_first_conflict_in_range(frames: Seq<FrameModel>, new: FrameModel)
    ensures
        first_conflict(frames, new) matches Some(i) ==> 0 <= i < frames.len(),
    decreases frames.len(),
{
    if frames.len() > 0 {
        lemma_first_conflict_in_range(frames.drop_first(), new);
    }
}

/// Some frame has identifier `id`.
pub open spec fn has_id(frames: Seq<FrameModel>, id: Seq<char>) -> bool {
    exists|i: int| 0 <= i < frames.len() && #[trigger] frames[i].id == id
}

/// No frame conflicts with `new`, so adding it appends it.
pub proof fn lemma_no_conflict(frames: Seq<FrameModel>, new: FrameModel)
    requires
        forall|i: int| 0 <= i < frames.len() ==> !frames_conflict(#[trigger] frames[i], new),
    ensures
        first_conflict(frames, new) is None,
    decreases frames.len(),
{
    if frames.len() > 0 {
        assert(!frames_conflict(frames[0], new));
        assert forall|i: int| 0 <= i < frames.drop_first().len() implies !frames_conflict(
            #[trigger] frames.drop_first()[i],
            new,
        ) by {
            assert(frames.drop_first()[i] == frames[i + 1]);
        }
        lemma_no_conflict(frames.drop_first(), new);
    }
}

/// A frame conflicts only with frames of its own identifier.
pub proof fn lemma_no_conflict_without_id(frames: Seq<FrameModel>, new: FrameModel)
    requires
        !has_id(frames, new.id),
    ensures
        first_conflict(frames, new) is None,
    decreases frames.len(),
{
    if frames.len() > 0 {
        assert(frames[0].id != new.id);
        assert(!has_id(frames.drop_first(), new.id)) by {
            if has_id(frames.drop_first(), new.id) {
                let i = choose|i: int|
                    0 <= i < frames.drop_first().len() && #[trigger] frames.drop_first()[i].id
                        == new.id;
                assert(frames[i + 1].id == new.id);
            }
        }
        lemma_no_conflict_without_id(frames.drop_first(), new);
    }
}

/// The frame that conflicts with `new` has `new`'s identifier.
pub proof fn lemma_conflict_has_id(frames: Seq<FrameModel>, new: FrameModel)
    ensures
        first_conflict(frames, new) matches Some(i) ==> 0 <= i < frames.len() && frames[i].id
            == new.id,
    decreases frames.len(),
{
    if frames.len() > 0 {
        lemma_conflict_has_id(frames.drop_first(), new);
    }
}

/// Appending a frame of another identifier does not change the text of `id`.
pub proof fn lemma_text_after_push(frames: Seq<FrameModel>, f: FrameModel, id: Seq<char>)
    requires
        f.id != id,
    ensures
        frame_text(frames.push(f), id) == frame_text(frames, id),
    decreases frames.len(),
{
    let g = frames.push(f);
    if frames.len() == 0 {
        assert(g.drop_first() =~= Seq::<FrameModel>::empty());
        assert(g[0] == f);
        assert(frame_text(g.drop_first(), id) is None);
        assert(frame_text(g, id) == frame_text(g.drop_first(), id));
    } else {
        assert(g.drop_first() =~= frames.drop_first().push(f));
        assert(g[0] == frames[0]);
        lemma_text_after_push(frames.drop_first(), f, id);
    }
}

/// Removing a frame of another identifier does not change the text of `id`.
pub proof fn lemma_text_after_remove(frames: Seq<FrameModel>, i: int, id: Seq<char>)
    requires
        0 <= i < frames.len(),
        frames[i].id != id,
    ensures
        frame_text(frames.remove(i), id) == frame_text(frames, id),
    decreases frames.len(),
{
    if i == 0 {
        assert(frames.remove(0) =~= frames.drop_first());
    } else {
        assert(frames.remove(i).drop_first() =~= frames.drop_first().remove(i - 1));
        lemma_text_after_remove(frames.drop_first(), i - 1, id);
    }
}

/// Adding a frame of another identifier does not change the text of `id`.
pub proof fn lemma_text_after_add(frames: Seq<FrameModel>, f: FrameModel, id: Seq<char>)
    requires
        f.id != id,
    ensures
        frame_text(added_frame(frames, f), id) == frame_text(frames, id),
{
    lemma_conflict_has_id(frames, f);
    match first_conflict(frames, f) {
        Some(i) => {
            lemma_text_after_remove(frames, i, id);
            lemma_text_after_push(frames.remove(i), f, id);
        },
        None => {
            lemma_text_after_push(frames, f, id);
        },
    }
}

/// Appending a text frame gives the text of its identifier when no earlier
/// frame has that identifier.
pub proof fn lemma_text_of_new_id(frames: Seq<FrameModel>, id: Seq<char>, t: Seq<char>)
    requires
        !has_id(frames, id),
    ensures
        frame_text(frames.push(text_frame(id, t)), id) == Some(t),
    decreases frames.len(),
{
    if frames.len() == 0 {
    } else {
        assert(frames[0].id != id);
        assert(frames.push(text_frame(id, t)).drop_first() =~= frames.drop_first().push(
            text_frame(id, t),
        ));
        assert(!has_id(frames.drop_first(), id)) by {
            if has_id(frames.drop_first(), id) {
                let i = choose|i: int|
                    0 <= i < frames.drop_first().len() && #[trigger] frames.drop_first()[i].id
                        == id;
                assert(frames[i + 1].id == id);
            }
        }
        lemma_text_of_new_id(frames.drop_first(), id, t);
    }
}

/// The pictures after appending a frame: those before, then the frame's
/// picture if it is one.
pub proof fn lemma_pictures_after_push(frames: Seq<FrameModel>, f: FrameModel)
    ensures
        frame_pictures(frames.push(f)) == frame_pictures(frames) + match f.content {
            ContentModel::Picture(p) => seq![p],
            _ => Seq::<PictureModel>::empty(),
        },
    decreases frames.len(),
{
    if frames.len() == 0 {
        let g = frames.push(f);
        assert(g.drop_first() =~= Seq::<FrameModel>::empty());
        assert(frame_pictures(g.drop_first()) == Seq::<PictureModel>::empty());
        assert(g[0] == f);
        match f.content {
            ContentModel::Picture(p) => {
                assert(frame_pictures(g) == seq![p] + Seq::<PictureModel>::empty());
            },
            _ => {},
        }
        assert(frame_pictures(g) =~= frame_pictures(frames) + match f.content {
            ContentModel::Picture(p) => seq![p],
            _ => Seq::<PictureModel>::empty(),
        });
    } else {
        let g = frames.push(f);
        let x = match f.content {
            ContentModel::Picture(p) => seq![p],
            _ => Seq::<PictureModel>::empty(),
        };
        assert(g.drop_first() =~= frames.drop_first().push(f));
        assert(g[0] == frames[0]);
        lemma_pictures_after_push(frames.drop_first(), f);
        let rest = frame_pictures(frames.drop_first());
        assert(frame_pictures(g.drop_first()) == rest + x);
        match frames[0].content {
            ContentModel::Picture(p) => {
                assert(frame_pictures(g) == seq![p] + (rest + x));
                assert(frame_pictures(frames) == seq![p] + rest);
                assert(seq![p] + (rest + x) =~= (seq![p] + rest) + x);
            },
            _ => {
                assert(frame_pictures(g) == rest + x);
                assert(frame_pictures(frames) == rest);
            },
        }
    }
}

/// The encoded size after appending a frame.
pub proof fn lemma_frames_len_push(frames: Seq<FrameModel>, f: FrameModel)
    ensures
        frames_len(frames.push(f)) == frames_len(frames) + frame_len(f),
    decreases frames.len(),
{
    let g = frames.push(f);
    if frames.len() == 0 {
        assert(g.drop_first() =~= Seq::<FrameModel>::empty());
        assert(g[0] == f);
        assert(frames_len(g.drop_first()) == 0);
    } else {
        assert(g.drop_first() =~= frames.drop_first().push(f));
        assert(g[0] == frames[0]);
        lemma_frames_len_push(frames.drop_first(), f);
        assert(frames_len(g) == frame_len(g[0]) + frames_len(g.drop_first()));
    }
}

/// The encoded size after removing a frame.
pub proof fn lemma_frames_len_remove(frames: Seq<FrameModel>, i: int)
    requires
        0 <= i < frames.len(),
    ensures
        frames_len(frames.remove(i)) == frames_len(frames) - frame_len(frames[i]),
    decreases frames.len(),
{
    if i == 0 {
        assert(frames.remove(0) =~= frames.drop_first());
    } else {
        assert(frames.remove(i).drop_first() =~= frames.drop_first().remove(i - 1));
        lemma_frames_len_remove(frames.drop_first(), i - 1);
    }
}

/// Encoded sizes are never negative.
pub proof fn lemma_frames_len_nonneg(frames: Seq<FrameModel>)
    ensures
        frames_len(frames) >= 0,
    decreases frames.len(),
{
    if frames.len() > 0 {
        lemma_frames_len_nonneg(frames.drop_first());
    }
}

/// Every frame takes at least its ten header bytes.
pub proof fn lemma_frame_len_lower(f: FrameModel)
    ensures
        frame_len(f) >= 10,
{
}

/// Adding a frame grows the encoded size by at most the new frame's size, and
/// by exactly that when nothing conflicts with it.
pub proof fn lemma_frames_len_added(frames: Seq<FrameModel>, new: FrameModel)
    ensures
        frames_len(added_frame(frames, new)) <= frames_len(frames) + frame_len(new),
        first_conflict(frames, new) is None ==> frames_len(added_frame(frames, new))
            == frames_len(frames) + frame_len(new),
{
    lemma_first_conflict_in_range(frames, new);
    match first_conflict(frames, new) {
        Some(i) => {
            lemma_frames_len_remove(frames, i);
            lemma_frames_len_push(frames.remove(i), new);
            lemma_frame_len_lower(frames[i]);
        },
        None => {
            lemma_frames_len_push(frames, new);
        },
    }
}

/// No two of the frames conflict.
pub open spec fn conflict_free(frames: Seq<FrameModel>) -> bool {
    forall|i: int, j: int|
        0 <= i < j < frames.len() ==> !frames_conflict(#[trigger] frames[i], #[trigger] frames[j])
}

/// Conflicting is symmetric, and two frames that conflict with a third
/// conflict with each other.
proof fn lemma_conflict_shared(a: FrameModel, b: FrameModel, n: FrameModel)
    ensures
        frames_conflict(a, n) == frames_conflict(n, a),
        frames_conflict(a, n) && frames_conflict(b, n) ==> frames_conflict(a, b),
{
}

/// The first conflicting frame does conflict with `new`.
proof fn lemma_first_conflict_conflicts(frames: Seq<FrameModel>, new: FrameModel)
    ensures
        first_conflict(frames, new) matches Some(k) ==> 0 <= k < frames.len() && frames_conflict(
            frames[k],
            new,
        ),
    decreases frames.len(),
{
    if frames.len() > 0 && !frames_conflict(frames[0], new) {
        lemma_first_conflict_conflicts(frames.drop_first(), new);
        if let Some(k) = first_conflict(frames.drop_first(), new) {
            assert(frames[k + 1] == frames.drop_first()[k]);
        }
    }
}

/// No frame conflicts with `new` when none is the first to.
proof fn lemma_first_conflict_none(frames: Seq<FrameModel>, new: FrameModel)
    ensures
        first_conflict(frames, new) is None ==> forall|i: int|
            0 <= i < frames.len() ==> !frames_conflict(#[trigger] frames[i], new),
    decreases frames.len(),
{
    if frames.len() > 0 && first_conflict(frames, new) is None {
        lemma_first_conflict_none(frames.drop_first(), new);
        assert(!frames_conflict(frames[0], new));
        assert forall|i: int| 0 <= i < frames.len() implies !frames_conflict(
            #[trigger] frames[i],
            new,
        ) by {
            if i > 0 {
                assert(frames[i] == frames.drop_first()[i - 1]);
            }
        }
    }
}

/// Adding a frame keeps the frames free of conflicts.
pub proof fn lemma_added_frame_conflict_free(frames: Seq<FrameModel>, new: FrameModel)
    requires
        conflict_free(frames),
    ensures
        conflict_free(added_frame(frames, new)),
{
    lemma_first_conflict_in_range(frames, new);
    lemma_first_conflict_none(frames, new);
    lemma_first_conflict_conflicts(frames, new);
    let r = added_frame(frames, new);
    match first_conflict(frames, new) {
        Some(k) => {
            assert(r == frames.remove(k).push(new));
            assert forall|i: int, j: int| 0 <= i < j < r.len() implies !frames_conflict(
                #[trigger] r[i],
                #[trigger] r[j],
            ) by {
                let pi = if i < k { i } else { i + 1 };
                assert(0 <= pi < frames.len() && pi != k);
                assert(r[i] == frames.remove(k)[i]);
                assert(r[i] == frames[pi]);
                if j == r.len() - 1 {
                    assert(r[j] == new);
                    assert(frames_conflict(frames[k], new));
                    lemma_conflict_shared(frames[pi], frames[k], new);
                    lemma_conflict_shared(frames[k], frames[pi], new);
                    if pi < k {
                        assert(!frames_conflict(frames[pi], frames[k]));
                    } else {
                        assert(!frames_conflict(frames[k], frames[pi]));
                    }
                } else {
                    let pj = if j < k { j } else { j + 1 };
                    assert(r[j] == frames.remove(k)[j]);
                    assert(r[j] == frames[pj]);
                    assert(pi < pj);
                    assert(!frames_conflict(frames[pi], frames[pj]));
                }
            }
        },
        None => {
            assert(r == frames.push(new));
            assert forall|i: int, j: int| 0 <= i < j < r.len() implies !frames_conflict(
                #[trigger] r[i],
                #[trigger] r[j],
            ) by {
                assert(r[i] == frames[i]);
                if j == r.len() - 1 {
                    assert(r[j] == new);
                } else {
                    assert(r[j] == frames[j]);
                }
            }
        },
    }
}

/// Adding a frame that decodes to itself to frames that do gives frames that do.
pub proof fn lemma_added_frame_reads_back(frames: Seq<FrameModel>, new: FrameModel)
    requires
        all_read_back(frames),
        reads_back(new),
    ensures
        all_read_back(added_frame(frames, new)),
{
    lemma_first_conflict_in_range(frames, new);
    let r = added_frame(frames, new);
    assert forall|i: int| 0 <= i < r.len() implies #[trigger] reads_back(r[i]) by {
        match first_conflict(frames, new) {
            Some(k) => {
                assert(r == frames.remove(k).push(new));
                if i < r.len() - 1 {
                    if i < k {
                        assert(r[i] == frames[i]);
                    } else {
                        assert(r[i] == frames[i + 1]);
                    }
                } else {
                    assert(r[i] == new);
                }
            },
            None => {
                assert(r == frames.push(new));
                if i < r.len() - 1 {
                    assert(r[i] == frames[i]);
                } else {
                    assert(r[i] == new);
                }
            },
        }
    }
}

/// Adding conflict-free frames one by one to an empty tag gives them back.
pub proof fn lemma_re_added_conflict_free(frames: Seq<FrameModel>)
    requires
        conflict_free(frames),
    ensures
        re_added(frames) == frames,
    decreases frames.len(),
{
    if frames.len() > 0 {
        let init = frames.drop_last();
        let last = frames.last();
        assert(conflict_free(init)) by {
            assert forall|i: int, j: int| 0 <= i < j < init.len() implies !frames_conflict(
                #[trigger] init[i],
                #[trigger] init[j],
            ) by {
                assert(init[i] == frames[i] && init[j] == frames[j]);
            }
        }
        lemma_re_added_conflict_free(init);
        assert forall|i: int| 0 <= i < init.len() implies !frames_conflict(#[trigger] init[i], last) by {
            assert(init[i] == frames[i]);
            assert(last == frames[frames.len() - 1]);
        }
        lemma_no_conflict(init, last);
        assert(init.push(last) =~= frames);
    }
}

} // verus!
