use profile_typenetwork::checks::common::{bullet_list, f32_eq, push_tag};
use profile_typenetwork::text::{contains_str, push_decimal, push_signed_decimal, replace, split};

fn chars(s: &str) -> Vec<char> {
    s.chars().collect()
}

fn string(v: &[char]) -> String {
    v.iter().collect()
}

#[test]
fn replace_matches_std() {
    for (s, pat, rep) in [
        ("semi bold semi ", "semi ", "semi"),
        ("aaaa", "aa", "b"),
        ("no match", "xyz", "q"),
        ("", "a", "b"),
        ("extra extra light", "extra ", "extra"),
    ] {
        assert_eq!(string(&replace(&chars(s), pat, rep)), s.replace(pat, rep));
    }
}

#[test]
fn split_matches_std() {
    for s in ["a b", "  a", "", "a  b ", "single"] {
        let parts: Vec<String> = split(&chars(s), ' ').iter().map(|p| string(p)).collect();
        let expected: Vec<String> = s.split(' ').map(|p| p.to_string()).collect();
        assert_eq!(parts, expected);
    }
}

#[test]
fn contains_matches_std() {
    for (s, p) in [("bold italic", "italic"), ("oblique", "obliq"), ("ital", "italic"), ("x", "")] {
        assert_eq!(contains_str(&chars(s), p), s.contains(p));
    }
}

#[test]
fn decimals_match_display() {
    for n in [0u64, 7, 10, 65535, u64::MAX] {
        let mut v = Vec::new();
        push_decimal(&mut v, n);
        assert_eq!(string(&v), n.to_string());
    }
    for n in [0i64, -1, 100, i64::MIN, i64::MAX] {
        let mut v = Vec::new();
        push_signed_decimal(&mut v, n);
        assert_eq!(string(&v), n.to_string());
    }
}

#[test]
fn tags_display_as_font_types_does() {
    let mut v = Vec::new();
    push_tag(&mut v, u32::from_be_bytes(*b"wght"));
    assert_eq!(string(&v), "wght");
    let mut v = Vec::new();
    push_tag(&mut v, 0x1234_5678);
    assert_eq!(string(&v), "{0x12}4Vx");
}

#[test]
fn f32_equality_follows_ieee() {
    assert!(f32_eq(100.0f32.to_bits(), 100.0f32.to_bits()));
    assert!(!f32_eq(100.0f32.to_bits(), 200.0f32.to_bits()));
    assert!(f32_eq(0.0f32.to_bits(), (-0.0f32).to_bits()));
    assert!(!f32_eq(f32::NAN.to_bits(), f32::NAN.to_bits()));
}

#[test]
fn bullet_lists_are_cut_after_nine() {
    let items: Vec<Vec<char>> = (0..11).map(|i| chars(&format!("i{i}"))).collect();
    let short = string(&bullet_list(false, &items));
    assert_eq!(short.lines().count(), 10);
    assert!(short.ends_with("* i8\n... and 2 others"));
    let full = string(&bullet_list(true, &items));
    assert_eq!(full.lines().count(), 11);
    let few: Vec<Vec<char>> = vec![chars("a"), chars("b")];
    assert_eq!(string(&bullet_list(false, &few)), "* a\n* b");
}
