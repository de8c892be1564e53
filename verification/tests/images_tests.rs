use sitegen::images::{file_name_of, process_image_url};

fn chars(s: &str) -> Vec<char> {
    s.chars().collect()
}

fn string_of(v: &[char]) -> String {
    v.iter().collect()
}

#[test]
fn file_name_is_the_part_after_the_last_slash() {
    assert_eq!(string_of(&file_name_of(&chars("../images/photo.jpg"))), "photo.jpg");
    assert_eq!(string_of(&file_name_of(&chars("photo.jpg"))), "photo.jpg");
    assert_eq!(string_of(&file_name_of(&chars("a/b/"))), "");
    assert_eq!(string_of(&file_name_of(&chars(""))), "");
}

#[test]
fn a_remote_reference_is_returned_unchanged() {
    assert_eq!(process_image_url("https://example.com/x.png"), "https://example.com/x.png");
    assert_eq!(process_image_url("./local/x.png"), "./local/x.png");
}

#[test]
fn a_local_reference_with_a_missing_source_is_returned_unchanged() {
    assert_eq!(
        process_image_url("../images/not-on-disk-anywhere.png"),
        "../images/not-on-disk-anywhere.png"
    );
}

#[test]
fn a_local_reference_ending_in_a_slash_is_returned_unchanged() {
    assert_eq!(process_image_url("../images/"), "../images/");
}
