use vstd::prelude::*;

use crate::text::text_equals;

verus! {

/// The language an upstream description is written in.
pub struct Language {
    pub name: String,
}

/// One description of a species, tagged with its language.
pub struct Description {
    pub text: String,
    pub language: Language,
}

/// Where a species lives.
pub struct Habitat {
    pub name: String,
}

/// What the service reports about one species.
pub struct Pokemon {
    pub name: String,
    pub description: Description,
    pub is_legendary: bool,
    pub habitat: Option<Habitat>,
}

/// The voice a description is rewritten in.
#[derive(PartialEq, Eq, Structural, Clone, Copy, Debug)]
pub enum TranslationType {
    Yoda,
    Shakespeare,
}

/// Whether the species lives in caves.
pub open spec fn lives_in_cave(p: Pokemon) -> bool {
    p.habitat matches Some(h) && h.name@ == "cave"@
}

/// The voice a species' description is rewritten in: Yoda for cave dwellers and
/// legendary species, Shakespeare for all others.
pub open spec fn style_of(p: Pokemon) -> TranslationType {
    if lives_in_cave(p) || p.is_legendary {
        TranslationType::Yoda
    } else {
        TranslationType::Shakespeare
    }
}

/// The path segment under which the translation service offers a voice.
pub open spec fn style_id(t: TranslationType) -> Seq<char> {
    match t {
        TranslationType::Yoda => "yoda"@,
        TranslationType::Shakespeare => "shakespeare"@,
    }
}

impl TranslationType {
    /// The path segment under which the translation service offers this voice.
    pub fn identifier(&self) -> (r: &'static str)
        ensures
            r@ == style_id(*self),
    {
        match self {
            TranslationType::Yoda => "yoda",
            TranslationType::Shakespeare => "shakespeare",
        }
    }
}

impl Pokemon {
    pub fn is_cave_habitat(&self) -> (r: bool)
        ensures
            r == lives_in_cave(*self),
    {
        match &self.habitat {
            Some(habitat) => text_equals(habitat.name.as_str(), "cave"),
            None => false,
        }
    }

    pub fn get_description(&self) -> (r: &str)
        ensures
            r@ == self.description.text@,
    {
        self.description.text.as_str()
    }

    pub fn set_description(&mut self, description: &str)
        ensures
            final(self).description.text@ == description@,
            final(self).description.language == old(self).description.language,
            final(self).name == old(self).name,
            final(self).is_legendary == old(self).is_legendary,
            final(self).habitat == old(self).habitat,
    {
        self.description.text = String::from_str(description);
    }
}

/// The Yoda voice is taken exactly when the species lives in caves or is
/// legendary; either alone suffices, and a missing habitat is no cave.
pub proof fn lemma_style_rule(p: Pokemon)
    ensures
        (style_of(p) == TranslationType::Yoda) <==> (lives_in_cave(p) || p.is_legendary),
        (style_of(p) == TranslationType::Shakespeare) <==> !(lives_in_cave(p) || p.is_legendary),
        p.habitat is None ==> (style_of(p) == TranslationType::Yoda <==> p.is_legendary),
{
}

/// Picks the voice for a species' description (see `style_of`).
pub fn translate_into(pokemon: &Pokemon) -> (r: TranslationType)
    ensures
        r == style_of(*pokemon),
{
    if pokemon.is_cave_habitat() || pokemon.is_legendary {
        TranslationType::Yoda
    } else {
        TranslationType::Shakespeare
    }
}

} // verus!
