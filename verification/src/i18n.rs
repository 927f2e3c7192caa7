use vstd::prelude::*;

verus! {

/// The two interface languages.
#[derive(Clone, Copy, Debug, PartialEq, Eq, Structural)]
pub enum Lang {
    En,
    Ru,
}

/// The language the switch turns `lang` into.
pub open spec fn other_lang(lang: Lang) -> Lang {
    match lang {
        Lang::En => Lang::Ru,
        Lang::Ru => Lang::En,
    }
}

/// Pressing the language switch always changes the language, and pressing it
/// twice comes back to the language one started with.
pub proof fn lemma_toggle_involution(lang: Lang)
    ensures
        other_lang(lang) != lang,
        other_lang(other_lang(lang)) == lang,
{
}

impl Lang {
    /// The other language.
    pub fn toggle(self) -> (r: Self)
        ensures
            r == other_lang(self),
    {
        match self {
            Lang::En => Lang::Ru,
            Lang::Ru => Lang::En,
        }
    }

    /// The short code shown on the language switch.
    pub fn label(self) -> (r: &'static str)
        ensures
            r@ == (match self {
                Lang::En => "EN"@,
                Lang::Ru => "RU"@,
            }),
    {
        match self {
            Lang::En => "EN",
            Lang::Ru => "RU",
        }
    }
}

/// The labels of the five boot-screen probes.
pub struct BootCheckLabels {
    pub init: &'static str,
    pub apis: &'static str,
    pub scene: &'static str,
    pub audio: &'static str,
    pub go: &'static str,
}

/// The boot-screen probe labels in `lang`.
pub fn boot_checks(lang: Lang) -> (r: BootCheckLabels)
    ensures
        match lang {
            Lang::En => {
                &&& r.init@ == "system initialized"@
                &&& r.apis@ == "apis reachable"@
                &&& r.audio@ == "audio pipeline"@
                &&& r.scene@ == "scene & effects ready"@
                &&& r.go@ == "all systems go"@
            },
            Lang::Ru => {
                &&& r.init@ == "система инициализирована"@
                &&& r.apis@ == "API / сеть доступны"@
                &&& r.audio@ == "аудио-конвейер"@
                &&& r.scene@ == "сцена и эффекты"@
                &&& r.go@ == "можно продолжать"@
            },
        },
{
    match lang {
        Lang::En => BootCheckLabels {
            init: "system initialized",
            apis: "apis reachable",
            audio: "audio pipeline",
            scene: "scene & effects ready",
            go: "all systems go",
        },
        Lang::Ru => BootCheckLabels {
            init: "система инициализирована",
            apis: "API / сеть доступны",
            audio: "аудио-конвейер",
            scene: "сцена и эффекты",
            go: "можно продолжать",
        },
    }
}

/// The boot title text in `lang`.
pub open spec fn boot_title_text(lang: Lang) -> Seq<char> {
    match lang {
        Lang::En => "SYSTEM_LOADER"@,
        Lang::Ru => "SYSTEM_LOADER"@,
    }
}

/// The boot title text in `lang`.
pub fn boot_title(lang: Lang) -> (r: &'static str)
    ensures
        r@ == boot_title_text(lang),
{
    match lang {
        Lang::En => "SYSTEM_LOADER",
        Lang::Ru => "SYSTEM_LOADER",
    }
}

/// The boot continue text in `lang`.
pub open spec fn boot_continue_text(lang: Lang) -> Seq<char> {
    match lang {
        Lang::En => "> CLICK TO CONTINUE"@,
        Lang::Ru => "> НАЖМИ, ЧТОБЫ ПРОДОЛЖИТЬ"@,
    }
}

/// The boot continue text in `lang`.
pub fn boot_continue(lang: Lang) -> (r: &'static str)
    ensures
        r@ == boot_continue_text(lang),
{
    match lang {
        Lang::En => "> CLICK TO CONTINUE",
        Lang::Ru => "> НАЖМИ, ЧТОБЫ ПРОДОЛЖИТЬ",
    }
}

/// The section info text in `lang`.
pub open spec fn section_info_text(lang: Lang) -> Seq<char> {
    match lang {
        Lang::En => "INFO"@,
        Lang::Ru => "INFO"@,
    }
}

/// The section info text in `lang`.
pub fn section_info(lang: Lang) -> (r: &'static str)
    ensures
        r@ == section_info_text(lang),
{
    match lang {
        Lang::En => "INFO",
        Lang::Ru => "INFO",
    }
}

/// The section tools text in `lang`.
pub open spec fn section_tools_text(lang: Lang) -> Seq<char> {
    match lang {
        Lang::En => "TOOLS"@,
        Lang::Ru => "TOOLS"@,
    }
}

/// The section tools text in `lang`.
pub fn section_tools(lang: Lang) -> (r: &'static str)
    ensures
        r@ == section_tools_text(lang),
{
    match lang {
        Lang::En => "TOOLS",
        Lang::Ru => "TOOLS",
    }
}

/// The telegram cta text in `lang`.
pub open spec fn telegram_cta_text(lang: Lang) -> Seq<char> {
    match lang {
        Lang::En => "Telegram"@,
        Lang::Ru => "Telegram"@,
    }
}

/// The telegram cta text in `lang`.
pub fn telegram_cta(lang: Lang) -> (r: &'static str)
    ensures
        r@ == telegram_cta_text(lang),
{
    match lang {
        Lang::En => "Telegram",
        Lang::Ru => "Telegram",
    }
}

/// The github cta text in `lang`.
pub open spec fn github_cta_text(lang: Lang) -> Seq<char> {
    match lang {
        Lang::En => "GitHub"@,
        Lang::Ru => "GitHub"@,
    }
}

/// The github cta text in `lang`.
pub fn github_cta(lang: Lang) -> (r: &'static str)
    ensures
        r@ == github_cta_text(lang),
{
    match lang {
        Lang::En => "GitHub",
        Lang::Ru => "GitHub",
    }
}

/// The tools meta title text in `lang`.
pub open spec fn tools_meta_title_text(lang: Lang) -> Seq<char> {
    match lang {
        Lang::En => "META EDITOR"@,
        Lang::Ru => "РЕДАКТОР МЕТА"@,
    }
}

/// The tools meta title text in `lang`.
pub fn tools_meta_title(lang: Lang) -> (r: &'static str)
    ensures
        r@ == tools_meta_title_text(lang),
{
    match lang {
        Lang::En => "META EDITOR",
        Lang::Ru => "РЕДАКТОР МЕТА",
    }
}

/// The tools meta lead text in `lang`.
pub open spec fn tools_meta_lead_text(lang: Lang) -> Seq<char> {
    match lang {
        Lang::En => "Edit file metadata in the browser. MP3 tags work today; photos and video are planned."@,
        Lang::Ru => "Редактирование метаданных в браузере. MP3 уже работает; фото и видео — в планах."@,
    }
}

/// The tools meta lead text in `lang`.
pub fn tools_meta_lead(lang: Lang) -> (r: &'static str)
    ensures
        r@ == tools_meta_lead_text(lang),
{
    match lang {
        Lang::En => "Edit file metadata in the browser. MP3 tags work today; photos and video are planned.",
        Lang::Ru => "Редактирование метаданных в браузере. MP3 уже работает; фото и видео — в планах.",
    }
}

/// The tools pick file text in `lang`.
pub open spec fn tools_pick_file_text(lang: Lang) -> Seq<char> {
    match lang {
        Lang::En => "Choose file"@,
        Lang::Ru => "Выбрать файл"@,
    }
}

/// The tools pick file text in `lang`.
pub fn tools_pick_file(lang: Lang) -> (r: &'static str)
    ensures
        r@ == tools_pick_file_text(lang),
{
    match lang {
        Lang::En => "Choose file",
        Lang::Ru => "Выбрать файл",
    }
}

/// The tools loading text in `lang`.
pub open spec fn tools_loading_text(lang: Lang) -> Seq<char> {
    match lang {
        Lang::En => "reading file…"@,
        Lang::Ru => "читаю файл…"@,
    }
}

/// The tools loading text in `lang`.
pub fn tools_loading(lang: Lang) -> (r: &'static str)
    ensures
        r@ == tools_loading_text(lang),
{
    match lang {
        Lang::En => "reading file…",
        Lang::Ru => "читаю файл…",
    }
}

/// The tools mp3 ready text in `lang`.
pub open spec fn tools_mp3_ready_text(lang: Lang) -> Seq<char> {
    match lang {
        Lang::En => "MP3 loaded — edit tags below"@,
        Lang::Ru => "MP3 загружен — правь теги ниже"@,
    }
}

/// The tools mp3 ready text in `lang`.
pub fn tools_mp3_ready(lang: Lang) -> (r: &'static str)
    ensures
        r@ == tools_mp3_ready_text(lang),
{
    match lang {
        Lang::En => "MP3 loaded — edit tags below",
        Lang::Ru => "MP3 загружен — правь теги ниже",
    }
}

/// The tools photo soon text in `lang`.
pub open spec fn tools_photo_soon_text(lang: Lang) -> Seq<char> {
    match lang {
        Lang::En => "EXIF for photos — coming next (camera, GPS, device)"@,
        Lang::Ru => "EXIF для фото — скоро (камера, GPS, устройство)"@,
    }
}

/// The tools photo soon text in `lang`.
pub fn tools_photo_soon(lang: Lang) -> (r: &'static str)
    ensures
        r@ == tools_photo_soon_text(lang),
{
    match lang {
        Lang::En => "EXIF for photos — coming next (camera, GPS, device)",
        Lang::Ru => "EXIF для фото — скоро (камера, GPS, устройство)",
    }
}

/// The tools video soon text in `lang`.
pub open spec fn tools_video_soon_text(lang: Lang) -> Seq<char> {
    match lang {
        Lang::En => "MP4 metadata — coming later (title, cover, device info)"@,
        Lang::Ru => "метаданные MP4 — позже (название, обложка, устройство)"@,
    }
}

/// The tools video soon text in `lang`.
pub fn tools_video_soon(lang: Lang) -> (r: &'static str)
    ensures
        r@ == tools_video_soon_text(lang),
{
    match lang {
        Lang::En => "MP4 metadata — coming later (title, cover, device info)",
        Lang::Ru => "метаданные MP4 — позже (название, обложка, устройство)",
    }
}

/// The tools unknown text in `lang`.
pub open spec fn tools_unknown_text(lang: Lang) -> Seq<char> {
    match lang {
        Lang::En => "unsupported file type"@,
        Lang::Ru => "тип файла не поддерживается"@,
    }
}

/// The tools unknown text in `lang`.
pub fn tools_unknown(lang: Lang) -> (r: &'static str)
    ensures
        r@ == tools_unknown_text(lang),
{
    match lang {
        Lang::En => "unsupported file type",
        Lang::Ru => "тип файла не поддерживается",
    }
}

/// The tools read fail text in `lang`.
pub open spec fn tools_read_fail_text(lang: Lang) -> Seq<char> {
    match lang {
        Lang::En => "could not read file"@,
        Lang::Ru => "не удалось прочитать файл"@,
    }
}

/// The tools read fail text in `lang`.
pub fn tools_read_fail(lang: Lang) -> (r: &'static str)
    ensures
        r@ == tools_read_fail_text(lang),
{
    match lang {
        Lang::En => "could not read file",
        Lang::Ru => "не удалось прочитать файл",
    }
}

/// The tools write fail text in `lang`.
pub open spec fn tools_write_fail_text(lang: Lang) -> Seq<char> {
    match lang {
        Lang::En => "could not write MP3 tags"@,
        Lang::Ru => "не удалось записать теги MP3"@,
    }
}

/// The tools write fail text in `lang`.
pub fn tools_write_fail(lang: Lang) -> (r: &'static str)
    ensures
        r@ == tools_write_fail_text(lang),
{
    match lang {
        Lang::En => "could not write MP3 tags",
        Lang::Ru => "не удалось записать теги MP3",
    }
}

/// The tools export ok text in `lang`.
pub open spec fn tools_export_ok_text(lang: Lang) -> Seq<char> {
    match lang {
        Lang::En => "download started"@,
        Lang::Ru => "скачивание началось"@,
    }
}

/// The tools export ok text in `lang`.
pub fn tools_export_ok(lang: Lang) -> (r: &'static str)
    ensures
        r@ == tools_export_ok_text(lang),
{
    match lang {
        Lang::En => "download started",
        Lang::Ru => "скачивание началось",
    }
}

/// The tools export fail text in `lang`.
pub open spec fn tools_export_fail_text(lang: Lang) -> Seq<char> {
    match lang {
        Lang::En => "download failed"@,
        Lang::Ru => "не удалось скачать"@,
    }
}

/// The tools export fail text in `lang`.
pub fn tools_export_fail(lang: Lang) -> (r: &'static str)
    ensures
        r@ == tools_export_fail_text(lang),
{
    match lang {
        Lang::En => "download failed",
        Lang::Ru => "не удалось скачать",
    }
}

/// The tools download mp3 text in `lang`.
pub open spec fn tools_download_mp3_text(lang: Lang) -> Seq<char> {
    match lang {
        Lang::En => "Download edited MP3"@,
        Lang::Ru => "Скачать изменённый MP3"@,
    }
}

/// The tools download mp3 text in `lang`.
pub fn tools_download_mp3(lang: Lang) -> (r: &'static str)
    ensures
        r@ == tools_download_mp3_text(lang),
{
    match lang {
        Lang::En => "Download edited MP3",
        Lang::Ru => "Скачать изменённый MP3",
    }
}

/// The tools file too large text in `lang`.
pub open spec fn tools_file_too_large_text(lang: Lang) -> Seq<char> {
    match lang {
        Lang::En => "file exceeds 300 MB limit"@,
        Lang::Ru => "файл больше 300 МБ"@,
    }
}

/// The tools file too large text in `lang`.
pub fn tools_file_too_large(lang: Lang) -> (r: &'static str)
    ensures
        r@ == tools_file_too_large_text(lang),
{
    match lang {
        Lang::En => "file exceeds 300 MB limit",
        Lang::Ru => "файл больше 300 МБ",
    }
}

/// The tools pick cover text in `lang`.
pub open spec fn tools_pick_cover_text(lang: Lang) -> Seq<char> {
    match lang {
        Lang::En => "Change cover art (JPEG, PNG, WebP)"@,
        Lang::Ru => "Сменить обложку (JPEG, PNG, WebP)"@,
    }
}

/// The tools pick cover text in `lang`.
pub fn tools_pick_cover(lang: Lang) -> (r: &'static str)
    ensures
        r@ == tools_pick_cover_text(lang),
{
    match lang {
        Lang::En => "Change cover art (JPEG, PNG, WebP)",
        Lang::Ru => "Сменить обложку (JPEG, PNG, WebP)",
    }
}

/// The tools cover updated text in `lang`.
pub open spec fn tools_cover_updated_text(lang: Lang) -> Seq<char> {
    match lang {
        Lang::En => "cover loaded — include in download"@,
        Lang::Ru => "обложка загружена — попадёт в файл при скачивании"@,
    }
}

/// The tools cover updated text in `lang`.
pub fn tools_cover_updated(lang: Lang) -> (r: &'static str)
    ensures
        r@ == tools_cover_updated_text(lang),
{
    match lang {
        Lang::En => "cover loaded — include in download",
        Lang::Ru => "обложка загружена — попадёт в файл при скачивании",
    }
}

/// The tools cover invalid text in `lang`.
pub open spec fn tools_cover_invalid_text(lang: Lang) -> Seq<char> {
    match lang {
        Lang::En => "use JPEG, PNG, or WebP for cover"@,
        Lang::Ru => "обложка: JPEG, PNG или WebP"@,
    }
}

/// The tools cover invalid text in `lang`.
pub fn tools_cover_invalid(lang: Lang) -> (r: &'static str)
    ensures
        r@ == tools_cover_invalid_text(lang),
{
    match lang {
        Lang::En => "use JPEG, PNG, or WebP for cover",
        Lang::Ru => "обложка: JPEG, PNG или WebP",
    }
}

/// The tools cover cleared text in `lang`.
pub open spec fn tools_cover_cleared_text(lang: Lang) -> Seq<char> {
    match lang {
        Lang::En => "new cover cleared — original embedded art used again"@,
        Lang::Ru => "новая обложка сброшена — снова из исходного файла"@,
    }
}

/// The tools cover cleared text in `lang`.
pub fn tools_cover_cleared(lang: Lang) -> (r: &'static str)
    ensures
        r@ == tools_cover_cleared_text(lang),
{
    match lang {
        Lang::En => "new cover cleared — original embedded art used again",
        Lang::Ru => "новая обложка сброшена — снова из исходного файла",
    }
}

/// The tools clear cover text in `lang`.
pub open spec fn tools_clear_cover_text(lang: Lang) -> Seq<char> {
    match lang {
        Lang::En => "Clear new cover"@,
        Lang::Ru => "Сбросить новую обложку"@,
    }
}

/// The tools clear cover text in `lang`.
pub fn tools_clear_cover(lang: Lang) -> (r: &'static str)
    ensures
        r@ == tools_clear_cover_text(lang),
{
    match lang {
        Lang::En => "Clear new cover",
        Lang::Ru => "Сбросить новую обложку",
    }
}

/// The tools cover kept text in `lang`.
pub open spec fn tools_cover_kept_text(lang: Lang) -> Seq<char> {
    match lang {
        Lang::En => "embedded cover will be kept unless you replace it"@,
        Lang::Ru => "встроенная обложка сохранится, пока не заменишь"@,
    }
}

/// The tools cover kept text in `lang`.
pub fn tools_cover_kept(lang: Lang) -> (r: &'static str)
    ensures
        r@ == tools_cover_kept_text(lang),
{
    match lang {
        Lang::En => "embedded cover will be kept unless you replace it",
        Lang::Ru => "встроенная обложка сохранится, пока не заменишь",
    }
}

/// The tools no cover text in `lang`.
pub open spec fn tools_no_cover_text(lang: Lang) -> Seq<char> {
    match lang {
        Lang::En => "no embedded cover in source file"@,
        Lang::Ru => "в файле нет встроенной обложки"@,
    }
}

/// The tools no cover text in `lang`.
pub fn tools_no_cover(lang: Lang) -> (r: &'static str)
    ensures
        r@ == tools_no_cover_text(lang),
{
    match lang {
        Lang::En => "no embedded cover in source file",
        Lang::Ru => "в файле нет встроенной обложки",
    }
}

/// The tools roadmap photo text in `lang`.
pub open spec fn tools_roadmap_photo_text(lang: Lang) -> Seq<char> {
    match lang {
        Lang::En => "Photo: EXIF (location, camera, date) — next phase"@,
        Lang::Ru => "Фото: EXIF (место, камера, дата) — следующий этап"@,
    }
}

/// The tools roadmap photo text in `lang`.
pub fn tools_roadmap_photo(lang: Lang) -> (r: &'static str)
    ensures
        r@ == tools_roadmap_photo_text(lang),
{
    match lang {
        Lang::En => "Photo: EXIF (location, camera, date) — next phase",
        Lang::Ru => "Фото: EXIF (место, камера, дата) — следующий этап",
    }
}

/// The tools roadmap video text in `lang`.
pub open spec fn tools_roadmap_video_text(lang: Lang) -> Seq<char> {
    match lang {
        Lang::En => "Video: MP4 atoms — larger project, after photos"@,
        Lang::Ru => "Видео: атомы MP4 — крупнее, после фото"@,
    }
}

/// The tools roadmap video text in `lang`.
pub fn tools_roadmap_video(lang: Lang) -> (r: &'static str)
    ensures
        r@ == tools_roadmap_video_text(lang),
{
    match lang {
        Lang::En => "Video: MP4 atoms — larger project, after photos",
        Lang::Ru => "Видео: атомы MP4 — крупнее, после фото",
    }
}

} // verus!
