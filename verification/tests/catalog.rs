use holocard::media_catalog::{MediaCatalog, MediaManifest};

fn strings(items: &[&str]) -> Vec<String> {
    items.iter().map(|s| s.to_string()).collect()
}

#[test]
fn default_catalog_is_not_loaded() {
    let c = MediaCatalog::default();
    assert!(!c.loaded);
    assert!(c.boot_background.is_none());
    assert!(c.shuffled_audio.is_empty());
    assert_eq!(c.avatar_url(), None);
}

#[test]
fn from_manifest_picks_and_shuffles() {
    let manifest = MediaManifest {
        ava: strings(&["/ava/me.png", "/ava/other.png"]),
        video: strings(&["/v1", "/v2"]),
        audio: strings(&["/a1", "/a2", "/a3"]),
        background: strings(&["/b1", "/b2"]),
    };
    let c = MediaCatalog::from_manifest(manifest, 1, &[0, 0], &[0, 1, 0]);
    assert!(c.loaded);
    assert_eq!(c.boot_background, Some("/b2".to_string()));
    assert_eq!(c.shuffled_video, strings(&["/v2", "/v1"]));
    // i = 2 swaps with 0: [a3, a2, a1]; i = 1 swaps with 1: unchanged.
    assert_eq!(c.shuffled_audio, strings(&["/a3", "/a2", "/a1"]));
    assert_eq!(c.avatar_url(), Some("/ava/me.png"));
    assert_eq!(c.manifest.audio, strings(&["/a1", "/a2", "/a3"]));
}

#[test]
fn empty_manifest_gives_no_background() {
    let c = MediaCatalog::from_manifest(MediaManifest::default(), 0, &[], &[]);
    assert!(c.loaded);
    assert_eq!(c.boot_background, None);
    assert!(c.shuffled_video.is_empty());
}
