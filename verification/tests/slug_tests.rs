use limace::Slugifier;

#[test]
fn should_handle_basic_slugification() {
    let slugifier = Slugifier::default();
    assert_eq!(slugifier.slugify("Hello, World!"), "hello-world");
}

#[test]
fn should_handle_unicode_transliteration() {
    let slugifier = Slugifier::default();
    assert_eq!(slugifier.slugify("Crème brûlée"), "creme-brulee");
}

#[test]
fn should_handle_custom_separator() {
    let slugifier = Slugifier::default().with_separator('_');
    assert_eq!(slugifier.slugify("Hello, World!"), "hello_world");
}

#[test]
fn should_handle_multiple_non_alphanumerics() {
    let slugifier = Slugifier::default();
    assert_eq!(slugifier.slugify("Hello---World!!"), "hello-world");
}

#[test]
fn should_handle_leading_and_trailing_specials() {
    let slugifier = Slugifier::default();
    assert_eq!(slugifier.slugify("...Hello World..."), "hello-world");
}

#[test]
fn should_convert_empty_input() {
    let slugifier = Slugifier::default();
    assert_eq!(slugifier.slugify(""), "");
}

#[test]
fn should_handle_numbers_and_letters() {
    let slugifier = Slugifier::default();
    assert_eq!(slugifier.slugify("Rust 2024"), "rust-2024");
}

#[test]
fn should_be_idempotent() {
    let slugifier = Slugifier::default();
    let once = slugifier.slugify("Hello, World!");
    let twice = slugifier.slugify(&once);
    assert_eq!(once, twice);
}

#[test]
fn unicode_with_trailing_punctuation() {
    let slugifier = Slugifier::default();
    assert_eq!(slugifier.slugify("Crème brûlée!"), "creme-brulee");
}

#[test]
fn set_separator_changes_the_separator_in_place() {
    let mut slugifier = Slugifier::default();
    slugifier.set_separator('.');
    assert_eq!(slugifier.slugify("Hello, World!"), "hello.world");
}

#[test]
fn multi_character_transliteration_expands() {
    let slugifier = Slugifier::default();
    assert_eq!(slugifier.slugify("Æneid"), "aeneid");
}

#[test]
fn entirely_non_alphanumeric_input_yields_empty() {
    let slugifier = Slugifier::default();
    assert_eq!(slugifier.slugify("... !!! ???"), "");
}

#[test]
fn uppercase_letters_are_lowercased() {
    let slugifier = Slugifier::default();
    assert_eq!(slugifier.slugify("HELLO World 42"), "hello-world-42");
}

#[test]
fn output_alphabet_is_closed() {
    let slugifier = Slugifier::default();
    let slug = slugifier.slugify("Grüße, Welt & Æther 7!");
    for c in slug.chars() {
        assert!(c.is_ascii_lowercase() || c.is_ascii_digit() || c == '-');
    }
}

#[test]
fn no_repeated_separators_in_output() {
    let slugifier = Slugifier::default();
    let slug = slugifier.slugify("a -- b ?? c");
    assert_eq!(slug, "a-b-c");
    assert!(!slug.contains("--"));
}

#[test]
fn no_separator_at_either_edge() {
    let slugifier = Slugifier::default();
    let slug = slugifier.slugify("  ...tidy title...  ");
    assert!(!slug.starts_with('-'));
    assert!(!slug.ends_with('-'));
    assert_eq!(slug, "tidy-title");
}

#[test]
fn control_characters_collapse_to_separator() {
    let slugifier = Slugifier::default();
    assert_eq!(slugifier.slugify("a\u{0}b\tc\u{7f}"), "a-b-c");
}

#[test]
fn idempotent_with_custom_separator_and_unicode() {
    let slugifier = Slugifier::default().with_separator('_');
    let once = slugifier.slugify("Crème... brûlée!");
    let twice = slugifier.slugify(&once);
    assert_eq!(once, "creme_brulee");
    assert_eq!(once, twice);
}
