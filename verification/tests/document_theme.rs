use jid_core::document::Document;
use jid_core::theme::ThemeMode;

#[test]
fn document_name_is_the_zero_padded_timestamp() {
    let d = Document::new(2026, 10, 12, 13, 45, 1);
    assert_eq!(d.filename(), "2026-10-12_13-45-01.md");
    assert_eq!(d.date_folder(), "2026-10-12");
    assert!(!d.is_modified());
}

#[test]
fn document_name_pads_small_years() {
    let d = Document::new(987, 1, 2, 0, 0, 0);
    assert_eq!(d.filename(), "0987-01-02_00-00-00.md");
    assert_eq!(d.date_folder(), "0987-01-02");
}

#[test]
fn document_created_now_has_a_well_formed_name() {
    let d = Document::new_now();
    let name = d.filename();
    assert_eq!(name.chars().count(), 22);
    assert!(name.ends_with(".md"));
    let folder = d.date_folder();
    assert_eq!(folder.chars().count(), 10);
    assert!(name.starts_with(&folder));
}

#[test]
fn modified_flag_follows_edit_and_save() {
    let mut d = Document::new(2026, 1, 1, 0, 0, 0);
    d.mark_modified();
    assert!(d.is_modified());
    d.mark_saved();
    assert!(!d.is_modified());
}

#[test]
fn title_carries_a_bullet_only_while_modified() {
    let d = Document::new(2026, 10, 12, 13, 45, 1);
    assert_eq!(d.display_title(false), "2026-10-12_13-45-01.md");
    assert_eq!(d.display_title(true), "2026-10-12_13-45-01.md \u{2022}");
}

#[test]
fn theme_modes_cycle_through_all_six() {
    let order = [
        ThemeMode::Dark,
        ThemeMode::Light,
        ThemeMode::Sepia,
        ThemeMode::Ocean,
        ThemeMode::Forest,
        ThemeMode::Midnight,
    ];
    let mut m = ThemeMode::Dark;
    for expected in order {
        assert_eq!(m, expected);
        m = m.next();
    }
    assert_eq!(m, ThemeMode::Dark);
}
