use holocard::meta_edit::{
    has_embedded_cover, id3v2_tag_len, mime_for_image_bytes, mp3_tag_fits, read_mp3_meta,
    read_mp3_tag, write_mp3_meta, Mp3MetaView,
};
use holocard::track_art::{after_ranged_fetch, cover_from_tag_bytes, TagFetchStep};
use id3::frame::{Picture, PictureType};
use id3::{Frame, Tag, TagLike, Version};

fn view(title: &str, artist: &str, album: &str) -> Mp3MetaView {
    Mp3MetaView {
        title: title.to_string(),
        artist: artist.to_string(),
        album: album.to_string(),
        has_cover: false,
    }
}

fn tagged_file(tag: &Tag, audio: &[u8]) -> Vec<u8> {
    let mut out = Vec::new();
    tag.write_to(&mut out, Version::Id3v24).unwrap();
    out.extend_from_slice(audio);
    out
}

fn picture(mime: &str, kind: PictureType, data: &[u8]) -> Picture {
    Picture {
        mime_type: mime.to_string(),
        picture_type: kind,
        description: String::new(),
        data: data.to_vec(),
    }
}

#[test]
fn mime_by_extension_in_any_case() {
    assert_eq!(mime_for_image_bytes("cover.PNG", &[]), Some("image/png".to_string()));
    assert_eq!(mime_for_image_bytes("a.WebP", &[]), Some("image/webp".to_string()));
    assert_eq!(mime_for_image_bytes("a.jpg", &[]), Some("image/jpeg".to_string()));
    assert_eq!(mime_for_image_bytes("a.JPEG", &[]), Some("image/jpeg".to_string()));
}

#[test]
fn extension_wins_over_bytes() {
    let jpeg = [0xff, 0xd8, 0xff, 0xe0];
    assert_eq!(mime_for_image_bytes("x.png", &jpeg), Some("image/png".to_string()));
}

#[test]
fn mime_by_magic_bytes() {
    let png = [0x89, 0x50, 0x4e, 0x47, 0x0d, 0x0a, 0x1a, 0x0a, 0, 0];
    assert_eq!(mime_for_image_bytes("image", &png), Some("image/png".to_string()));
    let jpeg = [0xff, 0xd8, 0xff];
    assert_eq!(mime_for_image_bytes("image.bin", &jpeg), Some("image/jpeg".to_string()));
    let webp = *b"RIFF\x10\x00\x00\x00WEBPVP8 ";
    assert_eq!(mime_for_image_bytes("noext", &webp), Some("image/webp".to_string()));
}

#[test]
fn unknown_images_are_refused() {
    assert_eq!(mime_for_image_bytes("a.gif", b"GIF89a"), None);
    // A PNG signature cut short is not enough.
    assert_eq!(mime_for_image_bytes("a", &[0x89, 0x50, 0x4e, 0x47]), None);
    let riff_not_webp = *b"RIFF\x10\x00\x00\x00WAVEfmt ";
    assert_eq!(mime_for_image_bytes("a", &riff_not_webp), None);
    assert_eq!(mime_for_image_bytes("", &[]), None);
}

#[test]
fn file_without_tag_is_all_audio() {
    let bytes = vec![0xff, 0xfb, 0x90, 0x00, 1, 2, 3];
    let (v, audio) = read_mp3_meta(&bytes).unwrap();
    assert_eq!(v.title, "");
    assert_eq!(v.artist, "");
    assert_eq!(v.album, "");
    assert!(!v.has_cover);
    assert_eq!(audio, bytes);
    assert!(read_mp3_tag(&bytes).is_none());
}

#[test]
fn reads_tag_fields() {
    let mut tag = Tag::new();
    tag.set_title("Song");
    tag.set_artist("Band");
    tag.add_frame(Frame::from(picture("image/png", PictureType::CoverFront, &[1, 2])));
    let bytes = tagged_file(&tag, &[9, 9, 9]);
    let (v, audio) = read_mp3_meta(&bytes).unwrap();
    assert_eq!(audio, vec![9, 9, 9]);
    assert_eq!(v.title, "Song");
    assert_eq!(v.artist, "Band");
    assert_eq!(v.album, "");
    assert!(v.has_cover);
    let read = read_mp3_tag(&bytes).unwrap();
    assert!(has_embedded_cover(&read));
}

#[test]
fn written_metadata_reads_back() {
    let out = write_mp3_meta(&[7, 7, 7], &view("T", "A", "L"), None, None).unwrap();
    assert!(out.starts_with(b"ID3"));
    assert!(out.ends_with(&[7, 7, 7]));
    let (v, _) = read_mp3_meta(&out).unwrap();
    assert_eq!(v.title, "T");
    assert_eq!(v.artist, "A");
    assert_eq!(v.album, "L");
    assert!(!v.has_cover);
}

#[test]
fn empty_fields_are_not_written() {
    let out = write_mp3_meta(&[], &view("", "Only", ""), None, None).unwrap();
    let tag = read_mp3_tag(&out).unwrap();
    assert_eq!(tag.title(), None);
    assert_eq!(tag.artist(), Some("Only"));
    assert_eq!(tag.album(), None);
}

#[test]
fn new_cover_is_front_cover() {
    let cover = Some((vec![1, 2, 3], "image/jpeg".to_string()));
    let out = write_mp3_meta(&[0], &view("T", "", ""), None, cover).unwrap();
    let tag = read_mp3_tag(&out).unwrap();
    let pics: Vec<&Picture> = tag.pictures().collect();
    assert_eq!(pics.len(), 1);
    assert_eq!(pics[0].mime_type, "image/jpeg");
    assert_eq!(pics[0].picture_type, PictureType::CoverFront);
    assert_eq!(pics[0].data, vec![1, 2, 3]);
}

#[test]
fn old_pictures_are_kept_without_new_cover() {
    let mut old = Tag::new();
    old.add_frame(Frame::from(picture("image/png", PictureType::CoverFront, &[4])));
    old.add_frame(Frame::from(picture("image/png", PictureType::CoverBack, &[5])));
    let out = write_mp3_meta(&[0], &view("T", "", ""), Some(&old), None).unwrap();
    let tag = read_mp3_tag(&out).unwrap();
    let datas: Vec<Vec<u8>> = tag.pictures().map(|p| p.data.clone()).collect();
    assert_eq!(datas, vec![vec![4], vec![5]]);
}

#[test]
fn new_cover_replaces_old_pictures() {
    let mut old = Tag::new();
    old.add_frame(Frame::from(picture("image/png", PictureType::CoverBack, &[5])));
    let cover = Some((vec![8], "image/webp".to_string()));
    let out = write_mp3_meta(&[0], &view("T", "", ""), Some(&old), cover).unwrap();
    let tag = read_mp3_tag(&out).unwrap();
    let datas: Vec<Vec<u8>> = tag.pictures().map(|p| p.data.clone()).collect();
    assert_eq!(datas, vec![vec![8]]);
}

#[test]
fn empty_new_cover_writes_no_picture() {
    let mut old = Tag::new();
    old.add_frame(Frame::from(picture("image/png", PictureType::CoverBack, &[5])));
    let cover = Some((Vec::new(), "image/png".to_string()));
    let out = write_mp3_meta(&[0], &view("T", "", ""), Some(&old), cover).unwrap();
    let tag = read_mp3_tag(&out).unwrap();
    assert_eq!(tag.pictures().count(), 0);
}

#[test]
fn cover_from_tag_bytes_takes_first_picture() {
    let mut tag = Tag::new();
    tag.add_frame(Frame::from(picture("", PictureType::CoverFront, &[1, 1])));
    tag.add_frame(Frame::from(picture("image/png", PictureType::CoverBack, &[2])));
    let bytes = tagged_file(&tag, &[]);
    let (data, mime) = cover_from_tag_bytes(&bytes).unwrap();
    assert_eq!(data, vec![1, 1]);
    assert_eq!(mime, "image/jpeg");
}

#[test]
fn cover_from_tag_bytes_without_pictures() {
    let mut tag = Tag::new();
    tag.set_title("x");
    assert_eq!(cover_from_tag_bytes(&tagged_file(&tag, &[])), None);
    assert_eq!(cover_from_tag_bytes(&[0, 1, 2]), None);
}

#[test]
fn audio_after_a_small_tag_in_a_large_file_is_kept_whole() {
    let mut tag = Tag::new();
    tag.set_title("Long");
    let audio: Vec<u8> = (0..20_000u32).map(|i| (i % 251) as u8).collect();
    let bytes = tagged_file(&tag, &audio);
    let (v, read_audio) = read_mp3_meta(&bytes).unwrap();
    assert_eq!(v.title, "Long");
    assert_eq!(read_audio, audio);
}

#[test]
fn written_file_reads_back_with_exact_audio() {
    let audio: Vec<u8> = (0..10_000u32).map(|i| (i % 7) as u8 + 1).collect();
    let out = write_mp3_meta(&audio, &view("Title", "Artist", "Album"), None, None).unwrap();
    let (v, read_audio) = read_mp3_meta(&out).unwrap();
    assert_eq!(v.title, "Title");
    assert_eq!(v.artist, "Artist");
    assert_eq!(v.album, "Album");
    assert!(!v.has_cover);
    assert_eq!(read_audio, audio);
}

#[test]
fn written_tag_has_an_id3v24_header() {
    let out = write_mp3_meta(&[1, 2], &view("T", "", ""), None, None).unwrap();
    assert_eq!(&out[0..6], &[0x49, 0x44, 0x33, 4, 0, 0]);
    // One TIT2 frame: 10 header bytes, the encoding byte and "T".
    assert_eq!(&out[6..10], &[0, 0, 0, 12]);
    assert_eq!(out.len(), 10 + 12 + 2);
    assert_eq!(id3v2_tag_len(&out), 22);
}

#[test]
fn tag_length_reads_the_synchsafe_size() {
    let mut header = vec![0x49, 0x44, 0x33, 3, 0, 0, 0, 0, 0x02, 0x01];
    assert_eq!(id3v2_tag_len(&header), 10 + 257);
    header[6] = 0x01;
    assert_eq!(id3v2_tag_len(&header), 10 + 0x200000 + 257);
    // The high bit of each size byte is not part of the size.
    header[9] = 0x81;
    assert_eq!(id3v2_tag_len(&header), 10 + 0x200000 + 257);
}

#[test]
fn tag_length_counts_a_v24_footer() {
    let header = [0x49, 0x44, 0x33, 4, 0, 0x10, 0, 0, 0, 5];
    assert_eq!(id3v2_tag_len(&header), 10 + 5 + 10);
    let v23 = [0x49, 0x44, 0x33, 3, 0, 0x10, 0, 0, 0, 5];
    assert_eq!(id3v2_tag_len(&v23), 10 + 5);
}

#[test]
fn tag_length_without_header_is_zero() {
    assert_eq!(id3v2_tag_len(&[0xff, 0xfb, 0x90, 0, 0, 0, 0, 0, 0, 0]), 0);
    assert_eq!(id3v2_tag_len(b"ID3"), 0);
    assert_eq!(id3v2_tag_len(&[]), 0);
}

#[test]
fn tag_claiming_more_than_the_file_leaves_no_audio() {
    let mut tag = Tag::new();
    tag.set_title("x");
    let mut bytes = tagged_file(&tag, &[]);
    // Announce a larger tag than the file holds.
    bytes[9] = 0x7f;
    if let Some((_, audio)) = read_mp3_meta(&bytes) {
        if read_mp3_tag(&bytes).is_some() {
            assert!(audio.is_empty());
        } else {
            assert_eq!(audio, bytes);
        }
    }
}

#[test]
fn new_cover_is_written_as_front_cover_even_with_kept_tag() {
    let mut old = Tag::new();
    old.add_frame(Frame::from(picture("image/png", PictureType::CoverBack, &[5])));
    let cover = Some((vec![6, 6], "image/png".to_string()));
    let out = write_mp3_meta(&[0], &view("", "", ""), Some(&old), cover).unwrap();
    let tag = read_mp3_tag(&out).unwrap();
    let pics: Vec<&Picture> = tag.pictures().collect();
    assert_eq!(pics.len(), 1);
    assert_eq!(pics[0].picture_type, PictureType::CoverFront);
    assert_eq!(pics[0].description, "");
}

#[test]
fn kept_pictures_keep_their_types() {
    let mut old = Tag::new();
    old.add_frame(Frame::from(picture("image/png", PictureType::CoverFront, &[1])));
    old.add_frame(Frame::from(picture("image/png", PictureType::CoverBack, &[2])));
    let out = write_mp3_meta(&[0], &view("T", "", ""), Some(&old), None).unwrap();
    let tag = read_mp3_tag(&out).unwrap();
    let kinds: Vec<PictureType> = tag.pictures().map(|p| p.picture_type).collect();
    assert_eq!(kinds, vec![PictureType::CoverFront, PictureType::CoverBack]);
}

#[test]
fn small_tags_fit_the_size_field() {
    let cover = Some((vec![1, 2, 3], "image/png".to_string()));
    assert!(mp3_tag_fits(&view("T", "A", "L"), None, &cover));
    assert!(mp3_tag_fits(&view("", "", ""), None, &None));
}

#[test]
fn a_cover_of_256_mib_does_not_fit() {
    let big = vec![0u8; 0x1000_0000];
    let cover = Some((big, "image/png".to_string()));
    assert!(!mp3_tag_fits(&view("", "", ""), None, &cover));
    let just_under = vec![0u8; 0x1000_0000 - 14 - 9 - 1];
    let cover = Some((just_under, "image/png".to_string()));
    assert!(mp3_tag_fits(&view("", "", ""), None, &cover));
}

#[test]
fn empty_cover_adds_nothing_to_the_size() {
    let cover = Some((Vec::new(), "image/png".to_string()));
    assert!(mp3_tag_fits(&view("", "", ""), None, &cover));
}

#[test]
fn ranged_fetch_gives_up_on_failure() {
    assert!(matches!(after_ranged_fetch(None, None), TagFetchStep::GiveUp));
    assert!(matches!(after_ranged_fetch(Some(false), Some(vec![1])), TagFetchStep::GiveUp));
}

#[test]
fn ranged_fetch_uses_a_non_empty_body() {
    match after_ranged_fetch(Some(true), Some(vec![1, 2])) {
        TagFetchStep::Use(b) => assert_eq!(b, vec![1, 2]),
        _ => panic!("expected the body to be used"),
    }
}

#[test]
fn ranged_fetch_falls_back_to_the_whole_file() {
    assert!(matches!(after_ranged_fetch(Some(true), Some(Vec::new())), TagFetchStep::FetchWhole));
    assert!(matches!(after_ranged_fetch(Some(true), None), TagFetchStep::FetchWhole));
}

#[test]
fn bytes_of_no_known_format_hold_no_tag() {
    assert!(read_mp3_tag(&[0, 1, 2, 3]).is_none());
    let (v, audio) = read_mp3_meta(&[0, 1, 2, 3]).unwrap();
    assert_eq!(v.title, "");
    assert_eq!(audio, vec![0, 1, 2, 3]);
}

#[test]
fn written_file_reads_back_fields_cover_and_audio() {
    let audio: Vec<u8> = (0..9_000u32).map(|i| (i % 13) as u8).collect();
    let cover = Some((vec![9, 8, 7], "image/png".to_string()));
    let out = write_mp3_meta(&audio, &view("Título", "", "Ünïcode"), None, cover).unwrap();
    let (v, read_audio) = read_mp3_meta(&out).unwrap();
    assert_eq!(v.title, "Título");
    assert_eq!(v.artist, "");
    assert_eq!(v.album, "Ünïcode");
    assert!(v.has_cover);
    assert_eq!(read_audio, audio);
}

#[test]
fn kept_pictures_read_back_from_the_written_file() {
    let mut old = Tag::new();
    let mut p = picture("image/jpeg", PictureType::Artist, &[3, 3]);
    p.description = "band photo".to_string();
    old.add_frame(Frame::from(p));
    let out = write_mp3_meta(&[5], &view("", "A", ""), Some(&old), None).unwrap();
    let tag = read_mp3_tag(&out).unwrap();
    let pics: Vec<&Picture> = tag.pictures().collect();
    assert_eq!(pics.len(), 1);
    assert_eq!(pics[0].picture_type, PictureType::Artist);
    assert_eq!(pics[0].description, "band photo");
    assert_eq!(pics[0].data, vec![3, 3]);
    let (v, audio) = read_mp3_meta(&out).unwrap();
    assert!(v.has_cover);
    assert_eq!(audio, vec![5]);
}
