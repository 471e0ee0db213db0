use compress_node::files::{keep_with_extension, path_has_extension, FileManager};
use compress_node::paths::split_name;
use compress_node::pattern::{is_name_pair, pairs_with_group};
use compress_node::text::decimal_string;

#[test]
fn test_is_file_pair() {
    let node = FileManager::new("in", "out");

    let in_file = "in/PXL_20240328_160158851.TS.mp4";
    let out_file = "out/PXL_20240328_160158851_compressed_1.mp4";
    assert!(node.is_file_pair(in_file, out_file));

    let in_file = "in/PXL_20240328_160158852.TS.mp4";
    assert!(!node.is_file_pair(in_file, out_file));
}

#[test]
fn test_output_name_generation() {
    let input_file = "test_video.mp4";

    let node = FileManager::new("in", "out");
    let output_name = node.get_output_name(input_file);

    let output_name_str = output_name.unwrap();
    assert!(output_name_str.starts_with("out/test_video_compressed_"));
    assert!(output_name_str.ends_with(".mp4"));
}

#[test]
fn output_name_at_a_given_second() {
    let node = FileManager::new("in", "out");
    assert_eq!(
        node.output_name_at("in/clip.mp4", 1700000000),
        Some("out/clip_compressed_1700000000.mp4".to_string())
    );
    assert_eq!(
        node.output_name_at("in/photo.final.jpg", 0),
        Some("out/photo.final_compressed_0.jpg".to_string())
    );
}

#[test]
fn output_name_needs_an_extension() {
    let node = FileManager::new("in", "out");
    assert_eq!(node.output_name_at("in/README", 5), None);
    assert_eq!(node.output_name_at("in/.hidden", 5), None);
    assert_eq!(node.output_name_at("/", 5), None);
    assert_eq!(node.get_output_name("in/README"), None);
}

#[test]
fn output_name_pairs_with_its_input() {
    let node = FileManager::new("in", "out");
    let out = node.output_name_at("in/holiday.mp4", 1712345678).unwrap();
    assert!(node.is_file_pair("in/holiday.mp4", &out));
}

#[test]
fn pairing_accepts_longer_input_names() {
    let node = FileManager::new("in", "out");
    assert!(is_name_pair("a.mp4", "a_compressed_1.mp4"));
    assert!(is_name_pair("abc.mp4", "a_compressed_1.mp4"));
    assert!(node.is_file_pair("in/abc.mp4", "out/a_compressed_1.mp4"));
}

#[test]
fn pairing_prefix_false_positive() {
    let node = FileManager::new("in", "out");
    assert!(!node.is_file_pair("a.mp4", "ab_compressed_1.mp4"));
    assert!(node.is_file_pair("ab.mp4", "a_compressed_1.mp4"));
}

#[test]
fn pairing_needs_the_pattern() {
    let node = FileManager::new("in", "out");
    assert!(!node.is_file_pair("in/a.mp4", "out/a_compressed_.mp4"));
    assert!(!node.is_file_pair("in/a.mp4", "out/a_compressed_12.jpg"));
    assert!(!node.is_file_pair("in/a.mp4", "out/a.mp4"));
    assert!(!node.is_file_pair("in/a.mp4", "out/a_compressed_x1.mp4"));
    assert!(node.is_file_pair("in/a.mp4", "out/a_compressed_12.mp4.part"));
}

#[test]
fn captured_group_is_greedy() {
    assert!(is_name_pair("a_compressed_1.mp4.mp4", "a_compressed_1.mp4_compressed_2.mp4"));
    assert!(!is_name_pair("a.mp4", "a_compressed_1.mp4_compressed_2.mp4"));
    assert!(is_name_pair("x.mp4", "x_compressed_9.mp4"));
    assert!(is_name_pair("anything.mp4", "_compressed_9.mp4"));
    assert!(!is_name_pair("plain.mp4", "plain.mp4"));
    assert!(is_name_pair("b.mp4", "a\nb_compressed_1.mp4"));
    assert!(!is_name_pair("a.mp4", "a\nb_compressed_1.mp4"));
}

#[test]
fn unicode_digits_count_as_digits() {
    let node = FileManager::new("in", "out");
    assert!(node.is_file_pair("in/a.mp4", "out/a_compressed_\u{0661}.mp4"));
    assert!(is_name_pair("a.mp4", "a_compressed_\u{0967}\u{0968}.mp4"));
}

#[test]
fn group_pairing_by_prefix() {
    assert!(pairs_with_group("abc.mp4", Some("ab".to_string())));
    assert!(pairs_with_group("abc.mp4", Some(String::new())));
    assert!(!pairs_with_group("a.mp4", Some("ab".to_string())));
    assert!(!pairs_with_group("a.mp4", None));
}

#[test]
fn stems_and_extensions() {
    assert_eq!(split_name("clip.mp4"), ("clip".to_string(), Some("mp4".to_string())));
    assert_eq!(split_name("a.b.c"), ("a.b".to_string(), Some("c".to_string())));
    assert_eq!(split_name(".hidden"), (".hidden".to_string(), None));
    assert_eq!(split_name("noext"), ("noext".to_string(), None));
    assert_eq!(split_name("a."), ("a".to_string(), Some(String::new())));
}

#[test]
fn extension_filter() {
    assert!(path_has_extension("in/a.mp4"));
    assert!(!path_has_extension("in/a."));
    assert!(!path_has_extension("in/.profile"));
    assert!(!path_has_extension("in/Makefile"));
    let kept = keep_with_extension(vec![
        "in/a.mp4".to_string(),
        "in/Makefile".to_string(),
        "in/b.jpg".to_string(),
        "in/c.".to_string(),
    ]);
    assert_eq!(kept, vec!["in/a.mp4".to_string(), "in/b.jpg".to_string()]);
}

#[test]
fn decimal_notation() {
    assert_eq!(decimal_string(0), "0");
    assert_eq!(decimal_string(7), "7");
    assert_eq!(decimal_string(1234567890), "1234567890");
    assert_eq!(decimal_string(u64::MAX), u64::MAX.to_string());
}
