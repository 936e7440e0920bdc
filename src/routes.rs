use vstd::prelude::*;

use crate::models::{style_id, style_of, translate_into, Description, Pokemon, TranslationType};

verus! {

/// Status of a successful reply.
pub const STATUS_OK: u16 = 200;

/// Status of a reply when the species service could not be reached or sent
/// something unusable.
pub const STATUS_SERVICE_UNAVAILABLE: u16 = 503;

/// How a call to an upstream service failed.
#[derive(PartialEq, Eq, Structural, Clone, Copy, Debug)]
pub enum UpstreamError {
    /// The service answered with this non-success status (404 when the name is unknown).
    Status(u16),
    /// The service could not be reached, or did not answer in time.
    Transport,
    /// The service answered with a payload that could not be read.
    Malformed,
}

/// What a route answers: a status and, on success, the species.
pub struct Reply {
    pub status: u16,
    pub body: Option<Pokemon>,
}

/// The status passed on to the caller for an upstream failure: the upstream
/// status itself, else "service unavailable".
pub open spec fn error_status(e: UpstreamError) -> u16 {
    match e {
        UpstreamError::Status(code) => code,
        _ => STATUS_SERVICE_UNAVAILABLE,
    }
}

/// The reply of the plain route to the outcome of the species lookup.
pub open spec fn plain_reply(fetched: Result<Pokemon, UpstreamError>) -> Reply {
    match fetched {
        Ok(p) => Reply { status: STATUS_OK, body: Some(p) },
        Err(e) => Reply { status: error_status(e), body: None },
    }
}

/// The species with its description replaced by the translation, when there is one.
pub open spec fn with_translation(p: Pokemon, translated: Result<String, UpstreamError>) -> Pokemon {
    match translated {
        Ok(t) => Pokemon {
            description: Description { text: t, language: p.description.language },
            ..p
        },
        Err(_) => p,
    }
}

/// The reply of the translated route to the outcome of the species lookup and,
/// when it succeeded, of the translation.
pub open spec fn translated_reply(
    fetched: Result<Pokemon, UpstreamError>,
    translated: Result<String, UpstreamError>,
) -> Reply {
    match fetched {
        Ok(p) => Reply { status: STATUS_OK, body: Some(with_translation(p, translated)) },
        Err(e) => plain_reply(Err(e)),
    }
}

/// The status passed on to the caller for a failed species lookup.
pub fn handle_api_err(err: &UpstreamError) -> (r: u16)
    ensures
        r == error_status(*err),
{
    match err {
        UpstreamError::Status(code) => *code,
        _ => STATUS_SERVICE_UNAVAILABLE,
    }
}

/// Answers the plain route once the species lookup is done.
pub fn pokemon_reply(fetched: Result<Pokemon, UpstreamError>) -> (r: Reply)
    ensures
        r == plain_reply(fetched),
{
    match fetched {
        Ok(pokemon) => Reply { status: STATUS_OK, body: Some(pokemon) },
        Err(e) => Reply { status: handle_api_err(&e), body: None },
    }
}

/// What the translated route does once the species lookup is done.
pub enum TranslatedStep {
    /// Answer at once: the lookup failed, and no translation is asked for.
    Reply(Reply),
    /// Ask for the species' description in `style`, then call `translate_pokemon`.
    Translate { pokemon: Pokemon, style: TranslationType },
}

/// Decides the first step of the translated route.
pub fn start_translated(fetched: Result<Pokemon, UpstreamError>) -> (r: TranslatedStep)
    ensures
        match fetched {
            Ok(p) => r == (TranslatedStep::Translate { pokemon: p, style: style_of(p) }),
            Err(e) => r == TranslatedStep::Reply(plain_reply(Err(e))),
        },
{
    match fetched {
        Ok(pokemon) => {
            let style = translate_into(&pokemon);
            TranslatedStep::Translate { pokemon, style }
        },
        Err(e) => TranslatedStep::Reply(pokemon_reply(Err(e))),
    }
}

/// Takes the translation in when there is one; any failure of the translation
/// leaves the species as it was.
pub fn translate_pokemon(pokemon: Pokemon, translated: Result<String, UpstreamError>) -> (r:
    Pokemon)
    ensures
        r == with_translation(pokemon, translated),
{
    match translated {
        Ok(text) => {
            let Pokemon { name, description, is_legendary, habitat } = pokemon;
            Pokemon {
                name,
                description: Description { text, language: description.language },
                is_legendary,
                habitat,
            }
        },
        Err(_) => pokemon,
    }
}

/// Answers the translated route once the translation has been tried.
pub fn translated_pokemon_reply(pokemon: Pokemon, translated: Result<String, UpstreamError>) -> (r:
    Reply)
    ensures
        r == translated_reply(Ok(pokemon), translated),
{
    Reply { status: STATUS_OK, body: Some(translate_pokemon(pokemon, translated)) }
}

/// A failed translation is never seen by the caller: the translated route then
/// answers exactly as the plain route does, whatever the lookup gave.
pub proof fn lemma_translation_failure_is_plain(
    fetched: Result<Pokemon, UpstreamError>,
    err: UpstreamError,
)
    ensures
        translated_reply(fetched, Err(err)) == plain_reply(fetched),
{
}

/// A failed lookup fails both routes alike, and no translation is asked for.
pub proof fn lemma_lookup_failure_is_shared(
    err: UpstreamError,
    translated: Result<String, UpstreamError>,
)
    ensures
        translated_reply(Err(err), translated) == plain_reply(Err::<Pokemon, UpstreamError>(err)),
        plain_reply(Err::<Pokemon, UpstreamError>(err)).status == error_status(err),
        plain_reply(Err::<Pokemon, UpstreamError>(err)).body is None,
{
}

/// The address of the translation service's endpoint for `style`, under `base`.
pub fn translation_url(base: &str, style: TranslationType) -> (r: String)
    ensures
        r@ == base@ + style_id(style),
{
    String::from_str(base).concat(style.identifier())
}

/// The address of the species service's record for `name`, under `base`.
pub fn species_url(base: &str, name: &str) -> (r: String)
    ensures
        r@ == base@ + name@,
{
    String::from_str(base).concat(name)
}

} // verus!
