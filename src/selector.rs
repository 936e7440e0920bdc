use vstd::prelude::*;

use crate::models::Description;
use crate::text::{normalize_whitespace, normalized, text_equals};

verus! {

/// Why no description could be chosen.
#[derive(PartialEq, Eq, Structural, Clone, Copy, Debug)]
pub enum SelectionError {
    /// The sequence of descriptions was empty.
    Empty,
}

/// Whether a description is written in the preferred language, English.
pub open spec fn is_canonical(d: Description) -> bool {
    d.language.name@ == "en"@
}

/// Whether some description of `entries` is in the preferred language.
pub open spec fn has_canonical(entries: Seq<Description>) -> bool {
    exists|i: int| 0 <= i < entries.len() && is_canonical(#[trigger] entries[i])
}

/// The position of the description kept from `entries`, read in order: the first
/// one is held, and it gives way to the first description in the preferred
/// language, unless it is in that language itself.
pub open spec fn chosen_index(entries: Seq<Description>) -> int
    decreases entries.len(),
{
    if entries.len() <= 1 {
        0
    } else {
        let k = chosen_index(entries.drop_last());
        if is_canonical(entries[k]) {
            k
        } else if is_canonical(entries.last()) {
            entries.len() - 1
        } else {
            k
        }
    }
}

/// The description kept from `entries`, its text with whitespace normalized.
pub open spec fn selected(entries: Seq<Description>, d: Description) -> bool {
    let c = entries[chosen_index(entries)];
    d.language == c.language && d.text@ == normalized(c.text@)
}

/// Tells whether `d` is written in the preferred language.
pub fn is_canonical_entry(d: &Description) -> (r: bool)
    ensures
        r == is_canonical(*d),
{
    text_equals(d.language.name.as_str(), "en")
}

/// The position that `chosen_index` gives is the first description in the
/// preferred language if there is one, else the first description.
pub proof fn lemma_selection_picks_first_canonical(entries: Seq<Description>)
    requires
        entries.len() > 0,
    ensures
        0 <= chosen_index(entries) < entries.len(),
        forall|j: int| 0 <= j < chosen_index(entries) ==> !is_canonical(#[trigger] entries[j]),
        has_canonical(entries) ==> is_canonical(entries[chosen_index(entries)]),
        !has_canonical(entries) ==> chosen_index(entries) == 0,
    decreases entries.len(),
{
    if entries.len() > 1 {
        let p = entries.drop_last();
        lemma_selection_picks_first_canonical(p);
        let k = chosen_index(p);
        assert(forall|j: int| 0 <= j < p.len() ==> p[j] == entries[j]);
        if !is_canonical(p[k]) {
            assert(!has_canonical(p));
            if has_canonical(entries) {
                let i = choose|i: int| 0 <= i < entries.len() && is_canonical(#[trigger] entries[i]);
                if i < p.len() {
                    assert(is_canonical(p[i]));
                }
            }
        }
    }
}

/// Once a description in the preferred language has been read, the descriptions
/// that follow it do not change the choice: they can be skipped unread.
pub proof fn lemma_selection_settled(entries: Seq<Description>, rest: Seq<Description>)
    requires
        has_canonical(entries),
    ensures
        chosen_index(entries + rest) == chosen_index(entries),
    decreases rest.len(),
{
    if rest.len() > 0 {
        let all = entries + rest;
        assert(all.drop_last() =~= entries + rest.drop_last());
        lemma_selection_settled(entries, rest.drop_last());
        let front = entries + rest.drop_last();
        lemma_selection_picks_first_canonical(entries);
        assert(front[chosen_index(entries)] == entries[chosen_index(entries)]);
    }
}

/// Picks one description from a sequence that arrives one entry at a time, and
/// keeps at most one entry in memory.
pub struct DescriptionSelector {
    current: Option<Description>,
    settled: bool,
    seen: Ghost<Seq<Description>>,
}

impl View for DescriptionSelector {
    type V = Seq<Description>;

    /// The entries fed so far.
    closed spec fn view(&self) -> Seq<Description> {
        self.seen@
    }
}

impl DescriptionSelector {
    /// The selector holds the description that the entries fed so far select.
    pub closed spec fn wf(&self) -> bool {
        &&& (self.current is None <==> self.seen@.len() == 0)
        &&& (self.current matches Some(c) ==> c == self.seen@[chosen_index(self.seen@)])
        &&& self.settled == has_canonical(self.seen@)
    }

    pub fn new() -> (r: Self)
        ensures
            r.wf(),
            r@ == Seq::<Description>::empty(),
    {
        DescriptionSelector { current: None, settled: false, seen: Ghost(Seq::empty()) }
    }

    /// Whether the choice is final: the entries still to come need not be read.
    pub fn is_settled(&self) -> (r: bool)
        requires
            self.wf(),
        ensures
            r == has_canonical(self@),
    {
        self.settled
    }

    /// Reads the next entry. Returns whether further entries can still change the
    /// choice; once they cannot, entries fed are dropped at once.
    pub fn feed(&mut self, entry: Description) -> (wants_more: bool)
        requires
            old(self).wf(),
        ensures
            final(self).wf(),
            final(self)@ == old(self)@.push(entry),
            wants_more == !has_canonical(final(self)@),
    {
        let ghost old_seen = self.seen@;
        let ghost new_seen = old_seen.push(entry);
        assert(new_seen.drop_last() =~= old_seen);
        assert(new_seen[old_seen.len() as int] == entry);
        proof {
            if old_seen.len() > 0 {
                lemma_selection_picks_first_canonical(old_seen);
                assert(new_seen[chosen_index(old_seen)] == old_seen[chosen_index(old_seen)]);
            }
        }
        let canonical = is_canonical_entry(&entry);
        if self.current.is_none() {
            self.settled = canonical;
            self.current = Some(entry);
        } else if !self.settled && canonical {
            self.settled = true;
            self.current = Some(entry);
        }
        self.seen = Ghost(new_seen);
        proof {
            if has_canonical(new_seen) && !has_canonical(old_seen) {
                let i = choose|i: int| 0 <= i < new_seen.len() && is_canonical(#[trigger] new_seen[i]);
                if i < old_seen.len() {
                    assert(is_canonical(old_seen[i]));
                }
            }
            if has_canonical(old_seen) {
                let i = choose|i: int| 0 <= i < old_seen.len() && is_canonical(#[trigger] old_seen[i]);
                assert(is_canonical(new_seen[i]));
            }
        }
        !self.settled
    }

    /// The description chosen from the entries fed, its text with whitespace
    /// normalized; an error when none was fed.
    pub fn finish(self) -> (r: Result<Description, SelectionError>)
        requires
            self.wf(),
        ensures
            r is Err <==> self@.len() == 0,
            r matches Ok(d) ==> selected(self@, d),
            r matches Err(e) ==> e == SelectionError::Empty,
    {
        match self.current {
            Some(d) => {
                let text = normalize_whitespace(d.text.as_str());
                Ok(Description { text, language: d.language })
            },
            None => Err(SelectionError::Empty),
        }
    }
}

/// Chooses one description from `entries` as `DescriptionSelector` does, reading
/// them in order and stopping once the choice is final.
pub fn select_description(entries: Vec<Description>) -> (r: Result<Description, SelectionError>)
    ensures
        r is Err <==> entries@.len() == 0,
        r matches Ok(d) ==> selected(entries@, d),
        r matches Err(e) ==> e == SelectionError::Empty,
{
    let ghost all = entries@;
    let mut rest = entries;
    let mut selector = DescriptionSelector::new();
    while rest.len() > 0 && !selector.is_settled()
        invariant
            selector.wf(),
            selector@ + rest@ == all,
        decreases rest@.len(),
    {
        let entry = rest.remove(0);
        selector.feed(entry);
        assert(selector@ + rest@ =~= all);
    }
    proof {
        if rest@.len() == 0 {
            assert(selector@ =~= all);
        } else {
            lemma_selection_settled(selector@, rest@);
            lemma_selection_picks_first_canonical(selector@);
            assert(all[chosen_index(selector@)] == selector@[chosen_index(selector@)]);
        }
    }
    selector.finish()
}

} // verus!
