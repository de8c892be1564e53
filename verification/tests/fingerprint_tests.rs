use sitegen::fingerprint::{image_output_name, stylesheet_output_name};

#[test]
fn stylesheet_name_is_the_hex_digest_of_its_bytes() {
    let name = stylesheet_output_name("body { color: red; }");
    assert_eq!(
        name,
        "main.5de625c36355cce7c1d5408826a0b21abfb49fb6c0e1f16c945a6f2aef38200c.css"
    );
}

#[test]
fn image_name_is_the_hex_digest_of_the_source_file_name() {
    let name = image_output_name("photo.jpg");
    assert_eq!(
        name,
        "aff6100bd4df0ea66736e1d3304208069a0f24303e21b43422398c935540a236.jpg"
    );
}

#[test]
fn known_digest_vector() {
    let name = image_output_name("abc");
    assert_eq!(
        name,
        "ba7816bf8f01cfea414140de5dae2223b00361a396177a9cb410ff61f20015ad.jpg"
    );
}

#[test]
fn fingerprinting_is_deterministic_across_calls() {
    let a = stylesheet_output_name("p { margin: 0; }");
    let b = stylesheet_output_name("p { margin: 0; }");
    assert_eq!(a, b);
    let c = image_output_name("cat.png");
    let d = image_output_name("cat.png");
    assert_eq!(c, d);
}

#[test]
fn different_names_give_different_fingerprints() {
    assert_ne!(image_output_name("a.png"), image_output_name("b.png"));
}
