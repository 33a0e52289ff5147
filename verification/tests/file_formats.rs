use cem::file_formats::{file_format_for_extension, guess_file_format_from_path, FileFormat};

#[test]
fn guesses_project_files() {
    assert_eq!(guess_file_format_from_path("scene.cem"), Some(FileFormat::Cem));
    assert_eq!(guess_file_format_from_path("/home/user/antenna.nec"), Some(FileFormat::Nec));
}

#[test]
fn guessing_ignores_case() {
    assert_eq!(guess_file_format_from_path("SCENE.CEM"), Some(FileFormat::Cem));
    assert_eq!(guess_file_format_from_path("dipole.Nec"), Some(FileFormat::Nec));
}

#[test]
fn unknown_or_missing_extension_guesses_nothing() {
    assert_eq!(guess_file_format_from_path("model.obj"), None);
    assert_eq!(guess_file_format_from_path("README"), None);
    assert_eq!(guess_file_format_from_path(".cem"), None);
    assert_eq!(guess_file_format_from_path("archive.cem.gz"), None);
}

#[test]
fn extension_lookup() {
    assert_eq!(file_format_for_extension("cem"), Some(FileFormat::Cem));
    assert_eq!(file_format_for_extension("NEC"), Some(FileFormat::Nec));
    assert_eq!(file_format_for_extension("ce"), None);
}

#[test]
fn format_properties() {
    let formats = FileFormat::iter();
    assert_eq!(formats, vec![FileFormat::Cem, FileFormat::Nec]);
    assert_eq!(FileFormat::Cem.file_extensions(), &["cem"]);
    assert_eq!(FileFormat::Nec.canonical_file_extension(), "nec");
    assert_eq!(FileFormat::Cem.display_name(), "CEM Project File");
    assert_eq!(FileFormat::Nec.display_name(), "NEC File");
    assert!(FileFormat::Cem.can_open());
    assert!(FileFormat::Nec.can_open());
    assert!(FileFormat::Cem.can_save());
    assert!(!FileFormat::Nec.can_save());
}

#[test]
fn extension_in_any_ascii_case_finds_its_format() {
    for ext in ["cem", "CEM", "Cem", "cEm", "ceM"] {
        assert_eq!(file_format_for_extension(ext), Some(FileFormat::Cem));
    }
    for ext in ["nec", "NEC", "Nec", "nEc", "neC"] {
        assert_eq!(file_format_for_extension(ext), Some(FileFormat::Nec));
    }
    assert_eq!(file_format_for_extension("cemm"), None);
}
