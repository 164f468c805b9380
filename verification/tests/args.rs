use github_streak_stats_lib::args::{Args, Background, Rgb, Theme, DEFAULT_OFFSET, DEFAULT_THEME};

fn dark() -> [Rgb; 5] {
    [
        Rgb { r: 22, g: 27, b: 34 },
        Rgb { r: 14, g: 68, b: 41 },
        Rgb { r: 0, g: 109, b: 50 },
        Rgb { r: 38, g: 166, b: 65 },
        Rgb { r: 57, g: 211, b: 83 },
    ]
}

fn light() -> [Rgb; 5] {
    [
        Rgb { r: 235, g: 237, b: 240 },
        Rgb { r: 155, g: 233, b: 168 },
        Rgb { r: 64, g: 196, b: 99 },
        Rgb { r: 48, g: 161, b: 78 },
        Rgb { r: 33, g: 110, b: 57 },
    ]
}

fn args(from: Option<&str>, to: Option<&str>, no_display_matrix: bool) -> Args {
    Args {
        login: None,
        github_token: "token".to_string(),
        from: from.map(str::to_string),
        to: to.map(str::to_string),
        offset: DEFAULT_OFFSET.to_string(),
        display_public_repositories: false,
        no_display_matrix,
        theme: Theme::from_str(DEFAULT_THEME).unwrap(),
    }
}

#[test]
fn the_two_themes() {
    assert_eq!(Theme::dark(), Theme::Dark(dark()));
    assert_eq!(Theme::light(), Theme::Light(light()));
    assert_eq!(*Theme::dark().deref(), dark());
    assert_eq!(*Theme::light().deref(), light());
    assert_eq!(Theme::dark().deref()[4], Rgb { r: 57, g: 211, b: 83 });
    assert_eq!(Theme::light().deref()[0], Rgb { r: 235, g: 237, b: 240 });
}

#[test]
fn themes_by_name() {
    assert_eq!(Theme::from_str("dark"), Ok(Theme::dark()));
    assert_eq!(Theme::from_str("light"), Ok(Theme::light()));
    assert_eq!(Theme::from_str("auto"), Ok(Theme::Auto));
    assert_eq!(Theme::from_str("d"), Ok(Theme::dark()));
    assert_eq!(Theme::from_str("dusk"), Ok(Theme::dark()));
    assert_eq!(Theme::from_str("lamp"), Ok(Theme::light()));
}

#[test]
fn themes_by_name_in_capitals() {
    assert_eq!(Theme::from_str("Dark"), Ok(Theme::dark()));
    assert_eq!(Theme::from_str("LIGHT"), Ok(Theme::light()));
    assert_eq!(Theme::from_str("Auto"), Ok(Theme::Auto));
}

#[test]
fn themes_that_are_none() {
    assert_eq!(Theme::from_str(""), Err("Invalid theme".to_string()));
    assert_eq!(Theme::from_str("blue"), Err("Invalid theme".to_string()));
    assert_eq!(Theme::from_str(" dark"), Err("Invalid theme".to_string()));
    assert_eq!(Theme::from_str("\u{212B}"), Err("Invalid theme".to_string()));
}

#[test]
fn themes_by_initial() {
    assert_eq!(Theme::from_initial('d'), Ok(Theme::dark()));
    assert_eq!(Theme::from_initial('l'), Ok(Theme::light()));
    assert_eq!(Theme::from_initial('a'), Ok(Theme::Auto));
    assert_eq!(Theme::from_initial('D'), Err("Invalid theme".to_string()));
    assert_eq!(Theme::from_initial('\0'), Err("Invalid theme".to_string()));
}

#[test]
fn themes_by_background() {
    assert_eq!(Theme::from_background(Background::Dark), Theme::dark());
    assert_eq!(Theme::from_background(Background::Light), Theme::light());
}

#[test]
fn the_automatic_theme_goes_with_the_background() {
    assert_eq!(Theme::Auto.resolve(Some(Background::Light)), Theme::light());
    assert_eq!(Theme::Auto.resolve(Some(Background::Dark)), Theme::dark());
    assert_eq!(Theme::Auto.resolve(None), Theme::dark());
    assert_eq!(Theme::dark().resolve(Some(Background::Light)), Theme::dark());
    assert_eq!(Theme::light().resolve(None), Theme::light());
}

#[test]
fn the_matrix_needs_whole_weeks() {
    assert!(args(None, None, false).display_matrix());
    assert!(args(Some("2024-01-03"), None, false).display_matrix());
    assert!(args(None, Some("2024-01-03"), false).display_matrix());
    assert!(!args(Some("2024-01-03"), Some("2024-01-10"), false).display_matrix());
    assert!(!args(None, None, true).display_matrix());
    assert!(!args(Some("2024-01-03"), Some("2024-01-10"), true).display_matrix());
    assert!(args(None, None, true).is_aligned());
    assert!(!args(Some("2024-01-03"), Some("2024-01-10"), false).is_aligned());
}

#[test]
fn the_defaults() {
    assert_eq!(DEFAULT_OFFSET, "+0900");
    assert_eq!(DEFAULT_THEME, "auto");
    assert_eq!(args(None, None, false).theme, Theme::Auto);
}
