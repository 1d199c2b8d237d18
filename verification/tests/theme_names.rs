use tui_clock::theme::Theme;

#[test]
fn theme_from_name_ignores_ascii_case() {
    assert_eq!(Theme::from_name("Classic"), Some(Theme::Classic));
    assert_eq!(Theme::from_name("sunset"), Some(Theme::Sunset));
    assert_eq!(Theme::from_name("OCEAN"), Some(Theme::Ocean));
    assert_eq!(Theme::from_name("oCeAn"), Some(Theme::Ocean));
}

#[test]
fn theme_from_name_rejects_other_text() {
    assert_eq!(Theme::from_name(""), None);
    assert_eq!(Theme::from_name("Blue"), None);
    assert_eq!(Theme::from_name(" Ocean"), None);
    assert_eq!(Theme::from_name("Oceans"), None);
    assert_eq!(Theme::from_name("Ocea"), None);
}

#[test]
fn theme_labels() {
    assert_eq!(Theme::Classic.label(), "Classic");
    assert_eq!(Theme::Sunset.label(), "Sunset");
    assert_eq!(Theme::Ocean.label(), "Ocean");
}

#[test]
fn theme_label_reads_back() {
    for t in Theme::ALL {
        assert_eq!(Theme::from_name(t.label()), Some(t));
        assert_eq!(Theme::from_name(&t.label().to_uppercase()), Some(t));
        assert_eq!(Theme::from_name(&t.label().to_lowercase()), Some(t));
    }
}

#[test]
fn theme_next_cycles_through_all() {
    assert_eq!(Theme::Classic.next(), Theme::Sunset);
    assert_eq!(Theme::Sunset.next(), Theme::Ocean);
    assert_eq!(Theme::Ocean.next(), Theme::Classic);
    for (i, t) in Theme::ALL.iter().enumerate() {
        assert_eq!(t.next(), Theme::ALL[(i + 1) % 3]);
        assert_eq!(t.next().next().next(), *t);
    }
}

#[test]
fn theme_stops() {
    assert_eq!(Theme::Classic.stops(), ((240, 240, 240), (240, 240, 240)));
    assert_eq!(Theme::Sunset.stops(), ((255, 120, 60), (170, 50, 180)));
    assert_eq!(Theme::Ocean.stops(), ((0, 220, 200), (40, 90, 255)));
}
