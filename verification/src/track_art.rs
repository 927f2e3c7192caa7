//! The cover art embedded in a track, as shown by the player.

use vstd::prelude::*;
use crate::id3_tag::{frame_pictures, id3_read, picture_parts, picture_parts_of, read_tag, tag_frames};

verus! {

broadcast use vstd::string::group_string_axioms;

/// The image bytes and MIME type of the first picture in the ID3 tag at the
/// start of `bytes`; a picture without a MIME type is taken as JPEG.
pub open spec fn embedded_cover(bytes: Seq<u8>) -> Option<(Seq<u8>, Seq<char>)> {
    match id3_read(bytes) {
        Some(frames) => if frame_pictures(frames).len() > 0 {
            let p = frame_pictures(frames)[0];
            Some(
                (
                    p.data,
                    if p.mime_type.len() == 0 {
                        "image/jpeg"@
                    } else {
                        p.mime_type
                    },
                ),
            )
        } else {
            None
        },
        None => None,
    }
}

/// The cover to show for a track whose first bytes are `bytes`: the data
/// and MIME type of the first embedded picture, `None` when there is no
/// readable tag or it holds no picture.
pub fn cover_from_tag_bytes(bytes: &[u8]) -> (r: Option<(Vec<u8>, String)>)
    ensures
        match r {
            Some((data, mime)) => embedded_cover(bytes@) == Some((data@, mime@)),
            None => embedded_cover(bytes@) is None,
        },
        r is None <==> (id3_read(bytes@) is None || frame_pictures(id3_read(bytes@)->0).len()
            == 0),
        id3_read(bytes@) matches Some(frames) ==> (frame_pictures(frames).len() > 0 ==> (
        r matches Some((data, mime)) && data@ == frame_pictures(frames)[0].data && (mime@
            == frame_pictures(frames)[0].mime_type || (frame_pictures(frames)[0].mime_type.len()
            == 0 && mime@ == seq!['i', 'm', 'a', 'g', 'e', '/', 'j', 'p', 'e', 'g'])))),
{
    let tag = match read_tag(bytes) {
        Some(t) => t,
        None => return None,
    };
    let mut pics = picture_parts(&tag);
    if pics.len() == 0 {
        return None;
    }
    let ghost first_model = frame_pictures(tag_frames(tag))[0];
    assert(picture_parts_of(pics@[0], first_model));
    let (mime_type, _, data) = pics.swap_remove(0);
    let mime = if mime_type.as_str().is_empty() {
        "image/jpeg".to_string()
    } else {
        mime_type
    };
    assert(mime@ == (if first_model.mime_type.len() == 0 { "image/jpeg"@ } else { first_model.mime_type }));
    proof {
        reveal_strlit("image/jpeg");
    }
    Some((data, mime))
}

/// The cover shown is the first embedded picture whenever the tag holds any,
/// however many it holds: its data, and its MIME type or JPEG when it has
/// none; there is no cover exactly when no tag can be read or it holds no
/// picture.
pub proof fn lemma_cover_is_first_picture(bytes: Seq<u8>)
    ensures
        embedded_cover(bytes) is None <==> (id3_read(bytes) is None || frame_pictures(
            id3_read(bytes)->0,
        ).len() == 0),
        id3_read(bytes) matches Some(frames) ==> (frame_pictures(frames).len() > 0 ==> (
        embedded_cover(bytes) matches Some((data, mime)) && data == frame_pictures(frames)[0].data
            && (mime == frame_pictures(frames)[0].mime_type || (
        frame_pictures(frames)[0].mime_type.len() == 0 && mime == seq![
            'i',
            'm',
            'a',
            'g',
            'e',
            '/',
            'j',
            'p',
            'e',
            'g',
        ])))),
{
    reveal_strlit("image/jpeg");
    assert("image/jpeg"@ =~= seq!['i', 'm', 'a', 'g', 'e', '/', 'j', 'p', 'e', 'g']);
}

/// What to do after asking the server for the first part of a track file
/// (the part that holds its ID3 tag).
pub enum TagFetchStep {
    /// Stop: the request failed or the server refused it.
    GiveUp,
    /// Read the tag from these bytes.
    Use(Vec<u8>),
    /// Ask for the whole file instead.
    FetchWhole,
}

/// The decision after the ranged request for a track's first bytes:
/// `response_ok` is `None` when the request could not be sent and otherwise
/// whether the response was a success; `body` is the response's bytes, when
/// they could be read. A successful, non-empty body is used; a successful
/// response without usable bytes leads to fetching the whole file; anything
/// else gives up.
pub fn after_ranged_fetch(response_ok: Option<bool>, body: Option<Vec<u8>>) -> (s: TagFetchStep)
    ensures
        response_ok != Some(true) ==> s is GiveUp,
        response_ok == Some(true) ==> match body {
            Some(b) => if b@.len() > 0 {
                s == TagFetchStep::Use(b)
            } else {
                s is FetchWhole
            },
            None => s is FetchWhole,
        },
{
    match response_ok {
        Some(true) => match body {
            Some(b) => if b.len() > 0 {
                TagFetchStep::Use(b)
            } else {
                TagFetchStep::FetchWhole
            },
            None => TagFetchStep::FetchWhole,
        },
        _ => TagFetchStep::GiveUp,
    }
}

} // verus!
