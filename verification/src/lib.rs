//! Core logic of a small personal site: the music queue, the bilingual
//! labels, media catalog shuffling, image MIME sniffing and MP3 tag editing.

pub mod components;
pub mod i18n;
pub mod id3_tag;
pub mod media;
pub mod media_catalog;
pub mod meta_edit;
pub mod pages;
pub mod text;
pub mod track_art;
pub mod util;
