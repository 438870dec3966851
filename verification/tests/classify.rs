use rpd::classify::{Classification, Classifier, COMMENT_MARKER};

fn classify(path: &str) -> Classification {
    Classifier::new().classify(path)
}

#[test]
fn json_ending_is_json_under_its_own_path() {
    assert_eq!(
        classify("assets/models/block.json"),
        Classification::Json("assets/models/block.json".to_string())
    );
    assert_eq!(classify("b.json"), Classification::Json("b.json".to_string()));
}

#[test]
fn mcmeta_ending_is_json_under_its_own_path() {
    assert_eq!(classify("pack.mcmeta"), Classification::Json("pack.mcmeta".to_string()));
    assert_eq!(
        classify("textures/water.png.mcmeta"),
        Classification::Json("textures/water.png.mcmeta".to_string())
    );
}

#[test]
fn marker_after_json_is_dropped_from_the_archive_path() {
    assert_eq!(
        classify("assets/lang/en_us.jsonc"),
        Classification::JsonWithComments("assets/lang/en_us.json".to_string())
    );
}

#[test]
fn marker_after_mcmeta_is_dropped_from_the_archive_path() {
    assert_eq!(
        classify("pack.mcmetac"),
        Classification::JsonWithComments("pack.mcmeta".to_string())
    );
}

#[test]
fn the_marker_is_the_letter_c() {
    assert_eq!(COMMENT_MARKER, 'c');
    let mut path = String::from("dir/file.json");
    path.push(COMMENT_MARKER);
    assert_eq!(classify(&path), Classification::JsonWithComments("dir/file.json".to_string()));
}

#[test]
fn other_trailing_characters_make_a_plain_file() {
    assert_eq!(classify("a.jsonx"), Classification::Plain);
    assert_eq!(classify("a.json5"), Classification::Plain);
    assert_eq!(classify("a.mcmetaC"), Classification::Plain);
    assert_eq!(classify("a.jsoncc"), Classification::Plain);
}

#[test]
fn other_endings_make_a_plain_file() {
    assert_eq!(classify("a.txt"), Classification::Plain);
    assert_eq!(classify("textures/stone.png"), Classification::Plain);
    assert_eq!(classify("json"), Classification::Plain);
    assert_eq!(classify("a.json/b"), Classification::Plain);
    assert_eq!(classify("ajson"), Classification::Plain);
}

#[test]
fn endings_are_matched_with_their_case() {
    assert_eq!(classify("A.JSON"), Classification::Plain);
    assert_eq!(classify("a.Json"), Classification::Plain);
    assert_eq!(classify("pack.MCMETA"), Classification::Plain);
    assert_eq!(classify("a.jsonC"), Classification::Plain);
}

#[test]
fn shortest_paths_are_classified() {
    assert_eq!(classify(""), Classification::Plain);
    assert_eq!(classify("c"), Classification::Plain);
    assert_eq!(classify(".json"), Classification::Json(".json".to_string()));
    assert_eq!(classify(".jsonc"), Classification::JsonWithComments(".json".to_string()));
    assert_eq!(classify(".mcmeta"), Classification::Json(".mcmeta".to_string()));
}

#[test]
fn paths_beyond_ascii_keep_every_character() {
    assert_eq!(
        classify("größe/日本語.json"),
        Classification::Json("größe/日本語.json".to_string())
    );
    assert_eq!(
        classify("größe/日本語.jsonc"),
        Classification::JsonWithComments("größe/日本語.json".to_string())
    );
    assert_eq!(classify("größe/日本語.jsön"), Classification::Plain);
}

#[test]
fn one_classifier_serves_many_paths() {
    let classifier = Classifier::new();
    assert_eq!(classifier.classify("a.json"), Classification::Json("a.json".to_string()));
    assert_eq!(classifier.classify("a.txt"), Classification::Plain);
    assert_eq!(
        classifier.classify("a.jsonc"),
        Classification::JsonWithComments("a.json".to_string())
    );
}
