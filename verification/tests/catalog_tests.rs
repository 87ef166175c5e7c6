use tts_gateway::catalog::{sorted_unique, PollyVoice, VoiceCatalog};
use tts_gateway::translate::{auth_header, select_translation, Translation};

#[test]
fn sorted_unique_orders_names_ascending() {
    let names = vec![
        String::from("fr"),
        String::from("de"),
        String::from("en-us"),
        String::from("en"),
    ];
    let sorted = sorted_unique(names);
    assert_eq!(
        sorted,
        vec![String::from("de"), String::from("en"), String::from("en-us"), String::from("fr")]
    );
}

#[test]
fn sorted_unique_drops_duplicates() {
    let names = vec![
        String::from("en"),
        String::from("de"),
        String::from("en"),
        String::from("de"),
    ];
    assert_eq!(sorted_unique(names), vec![String::from("de"), String::from("en")]);
}

#[test]
fn sorted_unique_of_nothing_is_nothing() {
    assert!(sorted_unique(Vec::new()).is_empty());
}

#[test]
fn sorted_catalog_lists_ascending_names() {
    let catalog = VoiceCatalog::from_names(sorted_unique(vec![
        String::from("pt"),
        String::from("af"),
        String::from("hu"),
    ]));
    assert_eq!(
        catalog.get_voices(),
        vec![String::from("af"), String::from("hu"), String::from("pt")]
    );
    assert!(catalog.check_voice("hu"));
}

#[test]
fn catalog_check_voice() {
    let catalog = VoiceCatalog::from_names(vec![String::from("en1"), String::from("de2")]);
    assert!(catalog.check_voice("en1"));
    assert!(catalog.check_voice("de2"));
    assert!(!catalog.check_voice("fr3"));
    assert!(!catalog.check_voice(""));
}

#[test]
fn unfetched_catalog_knows_no_voices() {
    let catalog = VoiceCatalog::empty();
    assert!(!catalog.is_fetched());
    assert!(!catalog.check_voice("en1"));
}

#[test]
fn catalog_stores_only_the_first_fetch() {
    let mut catalog = VoiceCatalog::empty();
    catalog.store_fetch(vec![String::from("a")]);
    assert!(catalog.is_fetched());
    assert!(catalog.check_voice("a"));
    // A later fetch changes nothing: the catalog is read-only once fetched.
    catalog.store_fetch(vec![String::from("b")]);
    assert!(catalog.check_voice("a"));
    assert!(!catalog.check_voice("b"));
}

#[test]
fn catalog_lists_its_names() {
    let catalog = VoiceCatalog::from_names(vec![String::from("x"), String::from("y")]);
    assert_eq!(catalog.get_voices(), vec![String::from("x"), String::from("y")]);
}

#[test]
fn polly_standard_filter() {
    let voices = vec![
        PollyVoice {
            id: String::from("Joanna"),
            supported_engines: vec![String::from("neural"), String::from("standard")],
        },
        PollyVoice { id: String::from("Aria"), supported_engines: vec![String::from("neural")] },
        PollyVoice { id: String::from("Brian"), supported_engines: vec![String::from("standard")] },
    ];
    let ids = tts_gateway::catalog::polly_standard_voice_ids(&voices);
    assert_eq!(ids, vec![String::from("Joanna"), String::from("Brian")]);
}

#[test]
fn translation_auth_header() {
    assert_eq!(auth_header("tok123"), "DeepL-Auth-Key tok123");
}

#[test]
fn translation_replaces_text_only_across_languages() {
    let t = Translation {
        text: String::from("hallo"),
        detected_source_language: String::from("EN"),
    };
    assert_eq!(select_translation(Some(t), "DE"), Some(String::from("hallo")));

    let same = Translation {
        text: String::from("hallo"),
        detected_source_language: String::from("DE"),
    };
    assert_eq!(select_translation(Some(same), "DE"), None);
    assert_eq!(select_translation(None, "DE"), None);
}
