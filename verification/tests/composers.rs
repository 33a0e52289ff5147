use cem::composers::{plan_open_file, Composers, OpenFile};
use cem::file_formats::FileFormat;

#[test]
fn opening_activates_the_new_tab() {
    let mut tabs = Composers::new();
    assert!(!tabs.has_file_open());
    assert!(tabs.active_mut().is_none());
    tabs.open_composer("a");
    tabs.open_composer("b");
    assert!(tabs.has_file_open());
    assert_eq!(tabs.active_mut().map(|c| *c), Some("b"));
    tabs.select(0);
    assert_eq!(tabs.active_mut().map(|c| *c), Some("a"));
}

#[test]
fn closing_activates_the_tab_to_the_left() {
    let mut tabs = Composers::new();
    tabs.open_composer(1);
    tabs.open_composer(2);
    tabs.open_composer(3);
    tabs.close_file();
    assert_eq!(tabs.active_mut().map(|c| *c), Some(2));
    tabs.select(0);
    tabs.close_file();
    assert!(tabs.has_file_open());
    assert!(tabs.active_mut().is_none());
    tabs.close_file();
    assert!(tabs.has_file_open());
}

#[test]
fn writes_through_the_active_tab() {
    let mut tabs = Composers::new();
    tabs.open_composer(String::from("untitled"));
    if let Some(title) = tabs.active_mut() {
        title.push_str(" (1)");
    }
    assert_eq!(tabs.active_mut().map(|t| t.clone()), Some(String::from("untitled (1)")));
}

#[test]
fn opening_a_file_is_decided_by_its_format() {
    assert_eq!(plan_open_file("antenna.nec"), OpenFile::Nec);
    assert_eq!(plan_open_file("ANTENNA.NEC"), OpenFile::Nec);
    assert_eq!(plan_open_file("scene.cem"), OpenFile::Unsupported(FileFormat::Cem));
    assert_eq!(plan_open_file("model.obj"), OpenFile::UnknownFormat);
    assert_eq!(plan_open_file("README"), OpenFile::UnknownFormat);
}
