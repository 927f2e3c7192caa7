use holocard::components::global_section_nav::nav_visible;
use holocard::components::section_nav::{info_active, link_class, thumb_class, tools_active};
use holocard::components::tilt_surface::TiltShell;
use holocard::i18n::{tools_cover_kept, tools_cover_updated, tools_no_cover, Lang};
use holocard::media::CheckStatus;
use holocard::pages::boot::{
    boot_background_css, class_for, health_status, icon, scene_status, steps_done,
};
use holocard::pages::info::{
    current_video_src, file_name_of, format_clock, next_video_index, track_label, video_playlist,
};
use holocard::pages::tools::{
    classify_file, cover_hint, cover_pick_status, download_name, exceeds_size_limit,
    export_status, picked_file_status, FileKind, MAX_TOOL_FILE_BYTES,
};

#[test]
fn icons_and_classes() {
    assert_eq!(icon(CheckStatus::Pending), "·");
    assert_eq!(icon(CheckStatus::Passed), "✓");
    assert_eq!(icon(CheckStatus::Warn), "!");
    assert_eq!(icon(CheckStatus::Fail), "✗");
    assert_eq!(class_for(CheckStatus::Passed), "check-text ok");
    assert_eq!(class_for(CheckStatus::Pending), "check-text pending");
}

#[test]
fn progress_counts_finished_probes() {
    let steps = [
        CheckStatus::Passed,
        CheckStatus::Warn,
        CheckStatus::Pending,
        CheckStatus::Fail,
        CheckStatus::Pending,
    ];
    assert_eq!(steps_done(&steps), 3);
    assert_eq!(steps_done(&[CheckStatus::Passed; 5]), 5);
    assert_eq!(steps_done(&[CheckStatus::Pending; 5]), 0);
}

#[test]
fn probe_outcomes() {
    assert_eq!(health_status(Some(true)), CheckStatus::Passed);
    assert_eq!(health_status(Some(false)), CheckStatus::Warn);
    assert_eq!(health_status(None), CheckStatus::Warn);
    assert_eq!(scene_status("maybe"), CheckStatus::Passed);
    assert_eq!(scene_status(""), CheckStatus::Warn);
}

#[test]
fn boot_background() {
    assert_eq!(boot_background_css(""), "none");
    assert_eq!(
        boot_background_css("/bg.jpg"),
        "linear-gradient(120deg, rgba(0,0,0,0.82), rgba(0,0,0,0.55)), url('/bg.jpg')"
    );
}

#[test]
fn video_playlist_wraps() {
    assert_eq!(next_video_index(0, 3), 1);
    assert_eq!(next_video_index(2, 3), 0);
    assert_eq!(next_video_index(5, 0), 5);
    let list = vec!["/v1.mp4".to_string(), "/v2.mp4".to_string()];
    assert_eq!(current_video_src(&list, 1), "/v2.mp4");
    assert_eq!(current_video_src(&list, 2), "");
}

#[test]
fn track_names() {
    assert_eq!(track_label(Some("/media/audio/song.mp3")), "song.mp3");
    assert_eq!(track_label(Some("song.mp3")), "song.mp3");
    assert_eq!(track_label(Some("/media/")), "");
    assert_eq!(track_label(None), "—");
    assert_eq!(file_name_of("a/b/ü.mp3"), "ü.mp3");
}

#[test]
fn clock_format() {
    assert_eq!(format_clock(0), "0:00");
    assert_eq!(format_clock(5), "0:05");
    assert_eq!(format_clock(65), "1:05");
    assert_eq!(format_clock(600), "10:00");
    assert_eq!(format_clock(3725), "62:05");
}

#[test]
fn size_limit() {
    assert_eq!(MAX_TOOL_FILE_BYTES, 314_572_800);
    assert!(!exceeds_size_limit(314_572_800));
    assert!(exceeds_size_limit(314_572_801));
}

#[test]
fn file_kinds() {
    assert_eq!(classify_file("Song.MP3"), FileKind::Mp3);
    assert_eq!(classify_file("p.jpeg"), FileKind::Photo);
    assert_eq!(classify_file("p.WEBP"), FileKind::Photo);
    assert_eq!(classify_file("clip.mov"), FileKind::Video);
    assert_eq!(classify_file("clip.webm"), FileKind::Video);
    assert_eq!(classify_file("notes.txt"), FileKind::Unknown);
    assert_eq!(classify_file("mp3"), FileKind::Unknown);
}

#[test]
fn download_names() {
    assert_eq!(download_name(""), "edited.mp3");
    assert_eq!(download_name("song.mp3"), "song_edited.mp3");
    assert_eq!(download_name("song.mp3.mp3"), "song_edited.mp3");
    assert_eq!(download_name("song.MP3"), "song.MP3_edited.mp3");
    assert_eq!(download_name(".mp3"), "_edited.mp3");
}

#[test]
fn cover_hints() {
    assert_eq!(cover_hint(Lang::En, true, false), tools_cover_updated(Lang::En));
    assert_eq!(cover_hint(Lang::Ru, false, true), tools_cover_kept(Lang::Ru));
    assert_eq!(cover_hint(Lang::En, false, false), tools_no_cover(Lang::En));
}

#[test]
fn section_paths() {
    assert!(info_active("/info"));
    assert!(info_active("/info/"));
    assert!(!info_active("/tools"));
    assert!(tools_active("/tools/"));
    assert!(!tools_active("/"));
    assert!(nav_visible("/tools"));
    assert!(!nav_visible("/"));
    assert!(!nav_visible("/infos"));
    assert_eq!(thumb_class(true), "section-switcher__thumb section-switcher__thumb--tools");
    assert_eq!(link_class(false), "section-switcher__link section-switcher__link--dim");
    assert_ne!(TiltShell::Section, TiltShell::Footer);
}

#[test]
fn playlist_follows_the_loaded_catalog() {
    let videos = vec!["/a.mp4".to_string(), "/b.mp4".to_string()];
    assert_eq!(video_playlist(true, &videos), videos);
    assert!(video_playlist(false, &videos).is_empty());
    assert!(video_playlist(true, &[]).is_empty());
}

#[test]
fn status_after_picking_a_file() {
    assert_eq!(picked_file_status(Lang::En, FileKind::Mp3), "MP3 loaded — edit tags below");
    assert_eq!(picked_file_status(Lang::En, FileKind::Unknown), "unsupported file type");
    assert_eq!(picked_file_status(Lang::Ru, FileKind::Unknown), "тип файла не поддерживается");
}

#[test]
fn status_after_picking_a_cover() {
    assert_eq!(cover_pick_status(Lang::En, false), "use JPEG, PNG, or WebP for cover");
    assert_eq!(cover_pick_status(Lang::En, true), tools_cover_updated(Lang::En));
}

#[test]
fn status_after_export() {
    assert_eq!(export_status(Lang::En, false, false), "could not write MP3 tags");
    assert_eq!(export_status(Lang::En, false, true), "could not write MP3 tags");
    assert_eq!(export_status(Lang::En, true, true), "download started");
    assert_eq!(export_status(Lang::Ru, true, false), "не удалось скачать");
}
