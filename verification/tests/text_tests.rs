use hackatime_heatmap::palette::theme_palette;
use hackatime_heatmap::params::{copy_option_text, same_option_text};
use hackatime_heatmap::text::{chars_of, decimal_string, same_text};
use hackatime_heatmap::zone::Timezone;

#[test]
fn numbers_in_decimal() {
    assert_eq!(decimal_string(0), "0");
    assert_eq!(decimal_string(7), "7");
    assert_eq!(decimal_string(10), "10");
    assert_eq!(decimal_string(109), "109");
    assert_eq!(decimal_string(4_294_967_295), "4294967295");
    for number in [1u32, 9, 11, 99, 100, 101, 999, 1_000, 65_535, 1_000_000_007] {
        assert_eq!(decimal_string(number), number.to_string());
    }
}

#[test]
fn texts_are_the_same_when_their_characters_are() {
    assert!(same_text("", ""));
    assert!(same_text("dark", "dark"));
    assert!(!same_text("dark", "Dark"));
    assert!(!same_text("dark", "dar"));
    assert!(same_text("é", "\u{e9}"));
    assert!(!same_text("é", "e\u{301}"));
}

#[test]
fn characters_of_a_text() {
    assert_eq!(chars_of(""), Vec::<char>::new());
    assert_eq!(chars_of("a,b"), vec!['a', ',', 'b']);
    assert_eq!(chars_of("é７"), vec!['é', '７']);
}

#[test]
fn optional_texts() {
    let some = Some("a".to_string());
    let other = Some("b".to_string());
    assert!(same_option_text(&some, &some.clone()));
    assert!(!same_option_text(&some, &other));
    assert!(!same_option_text(&some, &None));
    assert!(!same_option_text(&None, &some));
    assert!(same_option_text(&None, &None));
    assert_eq!(copy_option_text(&some), some);
    assert_eq!(copy_option_text(&None), None);
}

#[test]
fn palette_of_a_theme() {
    assert_eq!(theme_palette(&"dark".to_string()).name, "dark");
    assert_eq!(theme_palette(&"light".to_string()).name, "light");
    assert_eq!(theme_palette(&"catppuccin_light".to_string()).name, "catppuccin_light");
    assert_eq!(theme_palette(&"catppuccin_dark".to_string()).name, "catppuccin_dark");
    assert_eq!(theme_palette(&"catppuccin".to_string()).name, "dark");
    assert_eq!(theme_palette(&"".to_string()).colors[4], (112, 201, 133));
}

#[test]
fn copy_of_a_zone() {
    let zone = Timezone::parse("America/New_York").unwrap();
    let copy = zone.clone();
    assert_eq!(copy.name(), "America/New_York");
    assert_eq!(copy.day_at(0), zone.day_at(0));
    assert_eq!(copy.day_at(0), Some(719_162));
    assert_eq!(copy.instant_at(719_163, 0, 0, 0), Some(5 * 3_600));
}
