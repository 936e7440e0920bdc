use pokedex::models::{translate_into, Description, Habitat, Language, Pokemon, TranslationType};
use pokedex::selector::select_description;
use pokedex::routes::{
    handle_api_err, pokemon_reply, species_url, start_translated, translate_pokemon,
    translated_pokemon_reply, translation_url, TranslatedStep, UpstreamError, STATUS_OK,
    STATUS_SERVICE_UNAVAILABLE,
};

const DITTO_RAW: &str = "Capable of copying\nan enemy's genetic\ncode to instantly\u{c}transform itself\ninto a duplicate\nof the enemy.";
const DITTO_CLEAN: &str = "Capable of copying an enemy's genetic code to instantly transform itself into a duplicate of the enemy.";

fn pokemon(name: &str, habitat: Option<&str>, legendary: bool) -> Pokemon {
    Pokemon {
        name: name.to_string(),
        description: Description {
            text: DITTO_CLEAN.to_string(),
            language: Language { name: "en".to_string() },
        },
        is_legendary: legendary,
        habitat: habitat.map(|h| Habitat { name: h.to_string() }),
    }
}

fn ditto() -> Pokemon {
    pokemon("ditto", Some("urban"), false)
}

/// The ditto record as the species service sends it: one English entry.
fn fetched_ditto() -> Pokemon {
    let entries = vec![Description {
        text: DITTO_RAW.to_string(),
        language: Language { name: "en".to_string() },
    }];
    Pokemon {
        name: "ditto".to_string(),
        description: select_description(entries).unwrap(),
        is_legendary: false,
        habitat: Some(Habitat { name: "urban".to_string() }),
    }
}

fn same(a: &Pokemon, b: &Pokemon) -> bool {
    a.name == b.name
        && a.description.text == b.description.text
        && a.description.language.name == b.description.language.name
        && a.is_legendary == b.is_legendary
        && a.habitat.as_ref().map(|h| h.name.clone()) == b.habitat.as_ref().map(|h| h.name.clone())
}

#[test]
fn cave_habitat_is_detected() {
    assert!(pokemon("zubat", Some("cave"), false).is_cave_habitat());
    assert!(!pokemon("ditto", Some("urban"), false).is_cave_habitat());
    assert!(!pokemon("ditto", Some("caves"), false).is_cave_habitat());
    assert!(!pokemon("mew", None, true).is_cave_habitat());
}

#[test]
fn classification_covers_all_combinations() {
    assert_eq!(translate_into(&pokemon("a", Some("cave"), true)), TranslationType::Yoda);
    assert_eq!(translate_into(&pokemon("b", Some("cave"), false)), TranslationType::Yoda);
    assert_eq!(translate_into(&pokemon("c", Some("urban"), true)), TranslationType::Yoda);
    assert_eq!(translate_into(&pokemon("d", Some("urban"), false)), TranslationType::Shakespeare);
}

#[test]
fn legendary_without_habitat_is_yoda() {
    assert_eq!(translate_into(&pokemon("mewtwo", None, true)), TranslationType::Yoda);
    assert_eq!(translate_into(&pokemon("nobody", None, false)), TranslationType::Shakespeare);
}

#[test]
fn description_accessors() {
    let mut p = ditto();
    assert_eq!(p.get_description(), DITTO_CLEAN);
    p.set_description("new words");
    assert_eq!(p.get_description(), "new words");
    assert_eq!(p.name, "ditto");
    assert_eq!(p.description.language.name, "en");
}

#[test]
fn style_identifiers_and_urls() {
    assert_eq!(TranslationType::Yoda.identifier(), "yoda");
    assert_eq!(TranslationType::Shakespeare.identifier(), "shakespeare");
    assert_eq!(
        translation_url("https://api.funtranslations.com/translate/", TranslationType::Shakespeare),
        "https://api.funtranslations.com/translate/shakespeare"
    );
    assert_eq!(
        species_url("https://pokeapi.co/api/v2/pokemon-species/", "ditto"),
        "https://pokeapi.co/api/v2/pokemon-species/ditto"
    );
}

#[test]
fn upstream_errors_map_to_statuses() {
    assert_eq!(handle_api_err(&UpstreamError::Status(404)), 404);
    assert_eq!(handle_api_err(&UpstreamError::Status(500)), 500);
    assert_eq!(handle_api_err(&UpstreamError::Transport), STATUS_SERVICE_UNAVAILABLE);
    assert_eq!(handle_api_err(&UpstreamError::Malformed), 503);
}

#[test]
fn plain_route_replies_with_record() {
    let r = pokemon_reply(Ok(ditto()));
    assert_eq!(r.status, STATUS_OK);
    assert!(same(r.body.as_ref().unwrap(), &ditto()));
}

#[test]
fn calls_pokeapi_mockserver_to_get_info() {
    assert_eq!(
        species_url("http://127.0.0.1:9/api/v2/pokemon-species/", "test"),
        "http://127.0.0.1:9/api/v2/pokemon-species/test"
    );
    let r = pokemon_reply(Ok(pokemon("test", None, false)));
    assert_eq!(r.status, 200);
    assert_eq!(r.body.unwrap().name, "test");
}

#[test]
fn pokemon_endpoint_returns_404_if_pokemon_not_found() {
    let plain = pokemon_reply(Err(UpstreamError::Status(404)));
    assert_eq!(404, plain.status);
    assert!(plain.body.is_none());
    match start_translated(Err(UpstreamError::Status(404))) {
        TranslatedStep::Reply(r) => {
            assert_eq!(404, r.status);
            assert!(r.body.is_none());
        }
        TranslatedStep::Translate { .. } => panic!("no translation is due"),
    }
    match start_translated(Err(UpstreamError::Transport)) {
        TranslatedStep::Reply(r) => assert_eq!(r.status, 503),
        TranslatedStep::Translate { .. } => panic!("no translation is due"),
    }
}

#[test]
fn calls_pokeapi_and_funtranslations_mockserver_to_translate() {
    let (p, style) = match start_translated(Ok(fetched_ditto())) {
        TranslatedStep::Translate { pokemon, style } => (pokemon, style),
        TranslatedStep::Reply(_) => panic!("a translation is due"),
    };
    assert_eq!(style, TranslationType::Shakespeare);
    assert_eq!(p.get_description(), DITTO_CLEAN);
    assert_eq!(
        translation_url("http://127.0.0.1:9/translate/", style),
        "http://127.0.0.1:9/translate/shakespeare"
    );
    let r = translated_pokemon_reply(p, Ok("Ditto, thee art a copy.".to_string()));
    assert_eq!(r.status, 200);
    let body = r.body.unwrap();
    assert_eq!(body.description.text, "Ditto, thee art a copy.");
    assert_eq!(body.name, "ditto");
}

#[test]
fn funtranslations_server_returns_429_too_many_requests() {
    let p = match start_translated(Ok(fetched_ditto())) {
        TranslatedStep::Translate { pokemon, .. } => pokemon,
        TranslatedStep::Reply(_) => panic!("a translation is due"),
    };
    let r = translated_pokemon_reply(p, Err(UpstreamError::Status(429)));
    assert_eq!(r.status, 200);
    assert_eq!(r.body.unwrap().description.text, DITTO_CLEAN);
}

#[test]
fn failed_translation_matches_plain_route() {
    for err in [UpstreamError::Status(429), UpstreamError::Status(500), UpstreamError::Transport, UpstreamError::Malformed] {
        let plain = pokemon_reply(Ok(ditto()));
        let translated = translated_pokemon_reply(ditto(), Err(err));
        assert_eq!(plain.status, translated.status);
        assert!(same(plain.body.as_ref().unwrap(), translated.body.as_ref().unwrap()));
    }
}

#[test]
fn translation_replaces_only_the_text() {
    let p = translate_pokemon(pokemon("zubat", Some("cave"), false), Ok("Fly, it does.".to_string()));
    assert_eq!(p.description.text, "Fly, it does.");
    assert_eq!(p.description.language.name, "en");
    assert_eq!(p.habitat.unwrap().name, "cave");
    let q = translate_pokemon(ditto(), Err(UpstreamError::Malformed));
    assert!(same(&q, &ditto()));
}
