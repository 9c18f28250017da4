use path_forge::instances::{pick_sprite_path, split_pool};
use path_forge::listing::{list_by_keys, list_presets};
use path_forge::names::{
    equal_but_case, position_of, preset_display_name, sanitize_preset_name, sanitize_project_name,
    saved_preset_index,
};
use path_forge::sprites::overlay_sprite_path;
use path_forge::text::{blank, chars_of, decimal, join, parse_number, same_text, stripped, text_of, CharClass};

#[test]
fn names_are_made_safe() {
    assert_eq!(sanitize_project_name("My Project 1"), "My_Project_1");
    assert_eq!(sanitize_project_name("  __a-b__ "), "a-b");
    assert_eq!(sanitize_project_name("ä/ö:ü"), "project");
    assert_eq!(sanitize_project_name(""), "project");
    assert_eq!(sanitize_project_name("___"), "project");
    assert_eq!(sanitize_project_name("a\tb\u{3000}c"), "a_b_c");
    assert_eq!(sanitize_project_name("../etc"), "etc");
    assert_eq!(sanitize_preset_name("?!"), "custom_preset");
    assert_eq!(sanitize_preset_name("Night 2"), "Night_2");
}

#[test]
fn safe_names_stay_as_they_are() {
    for name in ["My Project 1", "  __a-b__ ", "", "x", "custom_preset"] {
        let once = sanitize_preset_name(name);
        assert_eq!(sanitize_preset_name(&once), once);
        assert!(!once.is_empty() && !once.starts_with('_') && !once.ends_with('_'));
    }
}

#[test]
fn white_space_is_that_of_unicode() {
    for u in 0..=0x3100u32 {
        if let Some(c) = char::from_u32(u) {
            assert_eq!(CharClass::White.contains(c), c.is_whitespace(), "{:x}", u);
        }
    }
    for u in [0xfeffu32, 0xffff, 0x1f600, 0x10ffff] {
        if let Some(c) = char::from_u32(u) {
            assert_eq!(CharClass::White.contains(c), c.is_whitespace());
        }
    }
}

#[test]
fn texts_are_cut_and_joined() {
    let chars = chars_of("  ab c\n");
    assert_eq!(text_of(&stripped(&chars, CharClass::White)), "ab c");
    assert!(blank(" \t\r\n"));
    assert!(blank(""));
    assert!(!blank(" x "));
    assert!(same_text("ab", "ab") && !same_text("ab", "aB"));
    assert_eq!(join(&vec!["a".to_string(), "b".to_string(), "c".to_string()], ", "), "a, b, c");
    assert_eq!(join(&vec![], ", "), "");
    for n in [0u64, 7, 10, 99, 100, 20000, u64::MAX] {
        assert_eq!(decimal(n), n.to_string());
    }
}

#[test]
fn numbers_are_read_as_the_standard_library_does() {
    for text in ["0", "7", "+12", "007", "4294967295", "4294967296", "", "+", "-1", "1_0", " 1", "12a", "99999999999"] {
        assert_eq!(parse_number(&chars_of(text), 10), text.parse::<u32>().ok(), "{:?}", text);
        assert_eq!(parse_number(&chars_of(text), 16), u32::from_str_radix(text, 16).ok(), "{:?}", text);
    }
    assert_eq!(parse_number(&chars_of("fFfFfFfF"), 16), Some(u32::MAX));
    assert_eq!(parse_number(&chars_of("fffffffff"), 16), None);
    assert_eq!(parse_number(&chars_of("ff"), 10), None);
}

#[test]
fn presets_are_found_by_name() {
    let names: Vec<String> = ["Stone", "My Night", "my night"].iter().map(|s| s.to_string()).collect();
    assert_eq!(preset_display_name("My_Night"), "My Night");
    assert!(equal_but_case("MY night", "my NIGHT"));
    assert!(!equal_but_case("my night", "my nights"));
    assert!(!equal_but_case("Ä", "ä"));
    assert_eq!(position_of(&names, "MY NIGHT"), Some(1));
    assert_eq!(position_of(&names, "none"), None);
    assert_eq!(saved_preset_index(&names, "my night"), Some(1));
    assert_eq!(saved_preset_index(&names, "my!  night"), None);
    assert_eq!(saved_preset_index(&names, "stone?"), Some(0));
}

#[test]
fn pools_are_split_at_semicolons_and_line_breaks() {
    let entries: Vec<String> = split_pool(" a.png ;;b.png\n\r c d.png;").iter().map(|e| text_of(e)).collect();
    assert_eq!(entries, ["a.png", "b.png", "c d.png"]);
    assert!(split_pool(" ; \n").is_empty());
}

fn hash(seed: u32, n: i32) -> u32 {
    let mut h = seed.wrapping_add(n.unsigned_abs()).wrapping_mul(2246822519).wrapping_add(1013904223);
    h ^= h >> 16;
    h = h.wrapping_mul(0x45d9f3b);
    h ^ (h >> 16)
}

#[test]
fn sprites_come_from_the_pool_first() {
    let pool = "a;b;c";
    for key in -40..40 {
        let at = hash(7 ^ 0x9e37_79b9, key) as usize % 3;
        assert_eq!(pick_sprite_path("x", pool, true, 7, key), Some(["a", "b", "c"][at].to_string()));
    }
    assert_eq!(pick_sprite_path(" x ", pool, false, 7, 1), Some("x".to_string()));
    assert_eq!(pick_sprite_path(" x ", " ; ", true, 7, 1), Some("x".to_string()));
    assert_eq!(pick_sprite_path("  ", pool, false, 7, 1), None);
}

#[test]
fn overlays_take_their_own_sprite_first() {
    assert_eq!(overlay_sprite_path(" x ", "a;b", true), Some("x".to_string()));
    assert_eq!(overlay_sprite_path(" ", "a;b", true), Some("a".to_string()));
    assert_eq!(overlay_sprite_path("", "\n b \n", true), Some("b".to_string()));
    assert_eq!(overlay_sprite_path("", "a;b", false), None);
    assert_eq!(overlay_sprite_path("", " ; ", true), None);
}

#[test]
fn presets_are_listed_by_name() {
    let names: Vec<String> = ["beta", "Alpha", "ALPHA", "Äpfel", "alp", "äpfel", ""].iter().map(|n| n.to_string()).collect();
    let order = list_presets(&names);
    let mut want: Vec<usize> = (0..names.len()).collect();
    want.sort_by(|a, b| names[*a].to_lowercase().cmp(&names[*b].to_lowercase()));
    assert_eq!(order, want);
    assert_eq!(order, vec![6, 4, 1, 2, 0, 3, 5]);
    let keys: Vec<Vec<char>> = ["b", "ab", "a", "b"].iter().map(|k| k.chars().collect()).collect();
    assert_eq!(list_by_keys(&keys), vec![2, 1, 0, 3]);
    assert!(list_presets(&vec![]).is_empty());
}
