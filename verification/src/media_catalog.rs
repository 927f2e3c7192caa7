//! The media manifest of the site and the catalog built from it once loaded.

use vstd::prelude::*;
use crate::util::{fisher_yates, pick_random, shuffle_copy, valid_draws};

verus! {

/// The lists of media URLs that the site's manifest names.
#[derive(Clone, Debug)]
pub struct MediaManifest {
    pub ava: Vec<String>,
    pub video: Vec<String>,
    pub audio: Vec<String>,
    pub background: Vec<String>,
}

impl Default for MediaManifest {
    fn default() -> (m: Self)
        ensures
            m.ava@.len() == 0,
            m.video@.len() == 0,
            m.audio@.len() == 0,
            m.background@.len() == 0,
    {
        MediaManifest { ava: Vec::new(), video: Vec::new(), audio: Vec::new(), background: Vec::new() }
    }
}

/// The manifest with the choices made from it: a boot background and the
/// playing orders of the videos and of the tracks.
#[derive(Clone, Debug)]
pub struct MediaCatalog {
    pub loaded: bool,
    pub manifest: MediaManifest,
    pub boot_background: Option<String>,
    pub shuffled_video: Vec<String>,
    pub shuffled_audio: Vec<String>,
}

impl Default for MediaCatalog {
    fn default() -> (c: Self)
        ensures
            !c.loaded,
            c.manifest.ava@.len() == 0,
            c.manifest.video@.len() == 0,
            c.manifest.audio@.len() == 0,
            c.manifest.background@.len() == 0,
            c.boot_background is None,
            c.shuffled_video@.len() == 0,
            c.shuffled_audio@.len() == 0,
    {
        MediaCatalog {
            loaded: false,
            manifest: MediaManifest::default(),
            boot_background: None,
            shuffled_video: Vec::new(),
            shuffled_audio: Vec::new(),
        }
    }
}

proof fn lemma_string_clones_equal(items: Seq<String>, copy: Seq<String>)
    requires
        copy.len() == items.len(),
        forall|k: int| 0 <= k < copy.len() ==> cloned(#[trigger] items[k], copy[k]),
    ensures
        copy == items,
{
    assert forall|k: int| 0 <= k < copy.len() implies copy[k] == items[k] by {
        assert(cloned(items[k], copy[k]));
    }
    assert(copy =~= items);
}

impl MediaCatalog {
    /// The catalog of a freshly loaded manifest: a background picked at random
    /// (by the pick `background_draw`) and the videos and tracks shuffled (by
    /// the picks `video_draws` and `audio_draws`, see `shuffle_in_place`).
    pub fn from_manifest(
        manifest: MediaManifest,
        background_draw: usize,
        video_draws: &[usize],
        audio_draws: &[usize],
    ) -> (c: Self)
        requires
            manifest.background@.len() > 0 ==> background_draw < manifest.background@.len(),
            valid_draws(manifest.video@.len() as int, video_draws@),
            valid_draws(manifest.audio@.len() as int, audio_draws@),
        ensures
            c.loaded,
            c.manifest.ava@ == manifest.ava@,
            c.manifest.video@ == manifest.video@,
            c.manifest.audio@ == manifest.audio@,
            c.manifest.background@ == manifest.background@,
            manifest.background@.len() == 0 ==> c.boot_background is None,
            manifest.background@.len() > 0 ==> c.boot_background == Some(
                manifest.background@[background_draw as int],
            ),
            c.shuffled_video@ == fisher_yates(manifest.video@, video_draws@),
            c.shuffled_audio@ == fisher_yates(manifest.audio@, audio_draws@),
    {
        let boot_background = pick_random(manifest.background.as_slice(), background_draw);
        let shuffled_video = shuffle_copy(manifest.video.as_slice(), video_draws);
        let shuffled_audio = shuffle_copy(manifest.audio.as_slice(), audio_draws);
        proof {
            let cv = choose|copy: Seq<String>|
                {
                    &&& copy.len() == manifest.video@.len()
                    &&& forall|k: int|
                        0 <= k < copy.len() ==> cloned(#[trigger] manifest.video@[k], copy[k])
                    &&& shuffled_video@ == fisher_yates(copy, video_draws@)
                };
            lemma_string_clones_equal(manifest.video@, cv);
            let ca = choose|copy: Seq<String>|
                {
                    &&& copy.len() == manifest.audio@.len()
                    &&& forall|k: int|
                        0 <= k < copy.len() ==> cloned(#[trigger] manifest.audio@[k], copy[k])
                    &&& shuffled_audio@ == fisher_yates(copy, audio_draws@)
                };
            lemma_string_clones_equal(manifest.audio@, ca);
        }
        MediaCatalog { loaded: true, manifest, boot_background, shuffled_video, shuffled_audio }
    }

    /// The URL of the first avatar image, if the manifest names any.
    pub fn avatar_url(&self) -> (r: Option<&str>)
        ensures
            match r {
                Some(s) => self.manifest.ava@.len() > 0 && s@ == self.manifest.ava@[0]@,
                None => self.manifest.ava@.len() == 0,
            },
    {
        if self.manifest.ava.len() > 0 {
            Some(self.manifest.ava[0].as_str())
        } else {
            None
        }
    }
}

/// The playing orders of a freshly loaded catalog hold exactly the videos and
/// the tracks of its manifest, each as many times as the manifest lists it.
pub proof fn lemma_catalog_orders_are_permutations(
    manifest_video: Seq<String>,
    video_draws: Seq<usize>,
    manifest_audio: Seq<String>,
    audio_draws: Seq<usize>,
)
    requires
        valid_draws(manifest_video.len() as int, video_draws),
        valid_draws(manifest_audio.len() as int, audio_draws),
    ensures
        fisher_yates(manifest_video, video_draws).to_multiset() == manifest_video.to_multiset(),
        fisher_yates(manifest_audio, audio_draws).to_multiset() == manifest_audio.to_multiset(),
{
    crate::util::lemma_shuffle_is_permutation(manifest_video, video_draws);
    crate::util::lemma_shuffle_is_permutation(manifest_audio, audio_draws);
}

} // verus!
