use holocard::i18n::{
    boot_checks, boot_continue, boot_title, github_cta, section_info, section_tools, telegram_cta,
    tools_file_too_large, tools_meta_lead, tools_meta_title, tools_roadmap_video, Lang,
};

#[test]
fn toggle_switches_and_returns() {
    assert_eq!(Lang::En.toggle(), Lang::Ru);
    assert_eq!(Lang::Ru.toggle(), Lang::En);
    assert_eq!(Lang::En.toggle().toggle(), Lang::En);
}

#[test]
fn labels() {
    assert_eq!(Lang::En.label(), "EN");
    assert_eq!(Lang::Ru.label(), "RU");
}

#[test]
fn shared_and_translated_texts() {
    assert_eq!(boot_title(Lang::Ru), "SYSTEM_LOADER");
    assert_eq!(boot_continue(Lang::En), "> CLICK TO CONTINUE");
    assert_eq!(boot_continue(Lang::Ru), "> НАЖМИ, ЧТОБЫ ПРОДОЛЖИТЬ");
    assert_eq!(section_info(Lang::Ru), "INFO");
    assert_eq!(section_tools(Lang::En), "TOOLS");
    assert_eq!(telegram_cta(Lang::En), "Telegram");
    assert_eq!(github_cta(Lang::Ru), "GitHub");
    assert_eq!(tools_meta_title(Lang::Ru), "РЕДАКТОР МЕТА");
    assert!(tools_meta_lead(Lang::En).starts_with("Edit file metadata"));
    assert_eq!(tools_file_too_large(Lang::En), "file exceeds 300 MB limit");
    assert_eq!(tools_roadmap_video(Lang::Ru), "Видео: атомы MP4 — крупнее, после фото");
}

#[test]
fn boot_labels() {
    let en = boot_checks(Lang::En);
    assert_eq!(en.init, "system initialized");
    assert_eq!(en.go, "all systems go");
    let ru = boot_checks(Lang::Ru);
    assert_eq!(ru.audio, "аудио-конвейер");
    assert_eq!(ru.scene, "сцена и эффекты");
}
