use stamprename::confirm::decide;
use stamprename::confirm::Decision;
use stamprename::resolver::file_extension;
use stamprename::resolver::target_name;
use stamprename::text::compare_keys;
use stamprename::text::lowercase_ascii;
use stamprename::text::normalize_timestamp;
use stamprename::text::KeyOrder;

#[test]
fn normalization_round_trip() {
    assert_eq!(normalize_timestamp("2023:05:14 21:34:06"), "2023-05-14_21-34-06");
}

#[test]
fn normalization_keeps_other_characters() {
    assert_eq!(normalize_timestamp("2023-05-14 21:34:06"), "2023-05-14_21-34-06");
    assert_eq!(normalize_timestamp(""), "");
    assert_eq!(normalize_timestamp("abc"), "abc");
}

#[test]
fn lowercasing_is_ascii_only() {
    assert_eq!(lowercase_ascii("JPG"), "jpg");
    assert_eq!(lowercase_ascii("HeiC"), "heic");
    assert_eq!(lowercase_ascii("mp4"), "mp4");
}

#[test]
fn key_comparison_orders_timestamps() {
    assert_eq!(
        compare_keys("2023-05-14_21-34-06", "2023-05-25_19-47-30"),
        KeyOrder::Less
    );
    assert_eq!(
        compare_keys("2023-05-25_19-47-30", "2023-05-25_19-47-30"),
        KeyOrder::Equal
    );
    assert_eq!(
        compare_keys("2024-01-01_00-00-00", "2023-12-31_23-59-59"),
        KeyOrder::Greater
    );
    assert_eq!(compare_keys("abc", "abcd"), KeyOrder::Less);
}

#[test]
fn extension_extraction() {
    assert_eq!(file_extension("/d/a.jpg"), Some("jpg".to_owned()));
    assert_eq!(file_extension("/d/a.JPG"), Some("jpg".to_owned()));
    assert_eq!(file_extension("/d/archive.tar.gz"), Some("gz".to_owned()));
    assert_eq!(file_extension("/d/.bashrc"), None);
    assert_eq!(file_extension("/d/noext"), None);
    assert_eq!(file_extension("/d.dir/noext"), None);
    assert_eq!(file_extension("trailing."), Some("".to_owned()));
}

#[test]
fn target_names() {
    let ts = "2023-05-14_21-34-06".to_owned();
    assert_eq!(
        target_name(&ts, &Some("mov".to_owned()), true),
        "2023-05-14_21-34-06 (utc).mov"
    );
    assert_eq!(
        target_name(&ts, &Some("jpg".to_owned()), false),
        "2023-05-14_21-34-06.jpg"
    );
    assert_eq!(target_name(&ts, &None, true), "2023-05-14_21-34-06 (utc)");
    assert_eq!(target_name(&ts, &None, false), "2023-05-14_21-34-06");
}

#[test]
fn confirmation_decisions() {
    assert_eq!(decide(&"Y".to_owned()), Decision::Proceed);
    assert_eq!(decide(&"y".to_owned()), Decision::Proceed);
    assert_eq!(decide(&"N".to_owned()), Decision::Decline);
    assert_eq!(decide(&"n".to_owned()), Decision::Decline);
    assert_eq!(decide(&"yes".to_owned()), Decision::Invalid);
    assert_eq!(decide(&"".to_owned()), Decision::Invalid);
}
