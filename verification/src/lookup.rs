use vstd::prelude::*;
use vstd::string::*;

use crate::render::chars_of;
use crate::render::first_chars;
use crate::ships::Tier;
use crate::text::nation_label;
use crate::text::nation_text;
use crate::text::numeral;
use crate::text::prefix;
use crate::text::tier_numeral;

verus! {

broadcast use vstd::string::group_string_axioms;

/// Discord shows at most this many suggestions.
pub const MAX_SUGGESTIONS: usize = 25;

/// Discord shows at most this many characters of a suggestion's label.
pub const MAX_LABEL_CHARS: usize = 100;

/// A ship offered while a player types its name.
#[derive(Debug, Clone, PartialEq, Eq)]
pub struct Suggestion {
    pub label: String,
    pub index: String,
}

/// A named ship in the directory: its ID, the label players see, and the cleaned forms of its
/// names that a typed answer is matched against.
#[derive(Debug, Clone, PartialEq, Eq)]
pub struct Listing {
    pub index: String,
    pub label: String,
    pub forms: Vec<String>,
}

/// The named ships, ordered by their display names.
#[derive(Debug, Clone, PartialEq, Eq)]
pub struct Directory {
    listings: Vec<Listing>,
}

pub open spec fn starts_with(form: Seq<char>, wanted: Seq<char>) -> bool {
    wanted.len() <= form.len() && form.take(wanted.len() as int) == wanted
}

pub open spec fn found_at(form: Seq<char>, wanted: Seq<char>, at: int) -> bool {
    0 <= at && at + wanted.len() <= form.len() && form.subrange(at, at + wanted.len()) == wanted
}

pub open spec fn contains_text(form: Seq<char>, wanted: Seq<char>) -> bool {
    exists|at: int| found_at(form, wanted, at)
}

/// Whether one of the listing's forms begins with `wanted`.
pub open spec fn leading(listing: Listing, wanted: Seq<char>) -> bool {
    exists|k: int| 0 <= k < listing.forms@.len() && starts_with(listing.forms@[k]@, wanted)
}

/// Whether none of the listing's forms begins with `wanted` but one holds it further in.
pub open spec fn inside(listing: Listing, wanted: Seq<char>) -> bool {
    !leading(listing, wanted) && exists|k: int|
        0 <= k < listing.forms@.len() && contains_text(listing.forms@[k]@, wanted)
}

/// The listings whose forms match `wanted`, in order: at the start when `at_start`, further in
/// otherwise.
pub open spec fn matching(listings: Seq<Listing>, wanted: Seq<char>, at_start: bool) -> Seq<Listing>
    decreases listings.len(),
{
    if listings.len() == 0 {
        Seq::empty()
    } else {
        let earlier = matching(listings.drop_last(), wanted, at_start);
        let last = listings.last();
        if (at_start && leading(last, wanted)) || (!at_start && inside(last, wanted)) {
            earlier.push(last)
        } else {
            earlier
        }
    }
}

/// What the directory suggests for `wanted`: the listings with a form that begins with it, then
/// those with a form that holds it further in, at most `MAX_SUGGESTIONS` of them.
pub open spec fn suggested(listings: Seq<Listing>, wanted: Seq<char>) -> Seq<Listing> {
    let all = matching(listings, wanted, true) + matching(listings, wanted, false);
    all.take(if all.len() < MAX_SUGGESTIONS {
        all.len() as int
    } else {
        MAX_SUGGESTIONS as int
    })
}

pub open spec fn suggestion_of(listing: Listing) -> (Seq<char>, Seq<char>) {
    (listing.label@, listing.index@)
}

pub open spec fn suggestion_view(suggestion: Suggestion) -> (Seq<char>, Seq<char>) {
    (suggestion.label@, suggestion.index@)
}

/// Whether one of the listing's forms is `wanted` itself.
pub open spec fn named(listing: Listing, wanted: Seq<char>) -> bool {
    exists|k: int| 0 <= k < listing.forms@.len() && listing.forms@[k]@ == wanted
}

/// The first listing, from `from` on, whose ID is `index`.
pub open spec fn first_with_index(listings: Seq<Listing>, index: Seq<char>, from: int) -> Option<
    Listing,
>
    decreases listings.len() - from,
{
    if from < 0 || from >= listings.len() {
        None
    } else if listings[from].index@ == index {
        Some(listings[from])
    } else {
        first_with_index(listings, index, from + 1)
    }
}

/// The first listing, from `from` on, with a form that is `wanted`.
pub open spec fn first_named(listings: Seq<Listing>, wanted: Seq<char>, from: int) -> Option<
    Listing,
>
    decreases listings.len() - from,
{
    if from < 0 || from >= listings.len() {
        None
    } else if named(listings[from], wanted) {
        Some(listings[from])
    } else {
        first_named(listings, wanted, from + 1)
    }
}

/// The ship a typed answer names: the one with the given ID when there is one, else the first
/// with a form equal to the cleaned answer, when that is not empty.
pub open spec fn resolved(
    listings: Seq<Listing>,
    by_index: Option<Seq<char>>,
    wanted: Seq<char>,
) -> Option<Seq<char>> {
    let found = match by_index {
        Some(index) => first_with_index(listings, index, 0),
        None => None,
    };
    match found {
        Some(listing) => Some(listing.index@),
        None => if wanted.len() > 0 {
            match first_named(listings, wanted, 0) {
                Some(listing) => Some(listing.index@),
                None => None,
            }
        } else {
            None
        },
    }
}

pub open spec fn label_text(display: Seq<char>, tier: Tier, nation: Seq<char>) -> Seq<char> {
    prefix(
        display + " ("@ + numeral(tier.value()) + ", "@ + nation_text(nation) + ")"@,
        MAX_LABEL_CHARS as int,
    )
}

/// A suggestion's label, `Name (X, Germany)`, cut to what Discord shows.
pub fn listing_label(display: &str, tier: Tier, nation: &str) -> (label: String)
    ensures
        label@ == label_text(display@, tier, nation@),
{
    let mut full = String::from_str(display);
    full.append(" (");
    full.append(tier_numeral(tier));
    full.append(", ");
    let nation_name = nation_label(nation);
    full.append(nation_name.as_str());
    full.append(")");
    first_chars(full.as_str(), MAX_LABEL_CHARS)
}

fn begins_with(form: &str, wanted: &Vec<char>) -> (begins: bool)
    ensures
        begins == starts_with(form@, wanted@),
{
    let chars = chars_of(form);
    if wanted.len() > chars.len() {
        return false;
    }
    let mut index: usize = 0;
    while index < wanted.len()
        invariant
            chars@ == form@,
            wanted.len() <= chars.len(),
            index <= wanted.len(),
            forall|i: int| 0 <= i < index ==> chars@[i] == wanted@[i],
        decreases wanted.len() - index,
    {
        if chars[index] != wanted[index] {
            assert(form@.take(wanted@.len() as int)[index as int] != wanted@[index as int]);
            return false;
        }
        index = index + 1;
    }
    assert(form@.take(wanted@.len() as int) =~= wanted@);
    true
}

fn found(chars: &Vec<char>, wanted: &Vec<char>, at: usize) -> (here: bool)
    requires
        at + wanted.len() <= chars.len(),
    ensures
        here == found_at(chars@, wanted@, at as int),
{
    let mut index: usize = 0;
    while index < wanted.len()
        invariant
            at + wanted.len() <= chars.len(),
            index <= wanted.len(),
            forall|i: int| 0 <= i < index ==> chars@[at + i] == wanted@[i],
        decreases wanted.len() - index,
    {
        if chars[at + index] != wanted[index] {
            assert(chars@.subrange(at as int, at + wanted@.len())[index as int] != wanted@[index as int]);
            return false;
        }
        index = index + 1;
    }
    assert(chars@.subrange(at as int, at + wanted@.len()) =~= wanted@);
    true
}

fn holds(form: &str, wanted: &Vec<char>) -> (held: bool)
    ensures
        held == contains_text(form@, wanted@),
{
    let chars = chars_of(form);
    if wanted.len() > chars.len() {
        assert forall|at: int| !found_at(form@, wanted@, at) by {}
        return false;
    }
    let last = chars.len() - wanted.len();
    let mut at: usize = 0;
    loop
        invariant
            chars@ == form@,
            last + wanted.len() == chars.len(),
            at <= last,
            forall|i: int| 0 <= i < at ==> !found_at(form@, wanted@, i),
        decreases last - at,
    {
        if found(&chars, wanted, at) {
            return true;
        }
        if at == last {
            assert forall|i: int| !found_at(form@, wanted@, i) by {
                if 0 <= i < at {
                }
            }
            return false;
        }
        at = at + 1;
    }
}

fn any_begins(listing: &Listing, wanted: &Vec<char>) -> (any: bool)
    ensures
        any == leading(*listing, wanted@),
{
    let mut k: usize = 0;
    while k < listing.forms.len()
        invariant
            k <= listing.forms@.len(),
            forall|j: int| 0 <= j < k ==> !starts_with(listing.forms@[j]@, wanted@),
        decreases listing.forms.len() - k,
    {
        if begins_with(listing.forms[k].as_str(), wanted) {
            return true;
        }
        k = k + 1;
    }
    false
}

fn any_holds(listing: &Listing, wanted: &Vec<char>) -> (any: bool)
    ensures
        any == exists|k: int|
            0 <= k < listing.forms@.len() && contains_text(listing.forms@[k]@, wanted@),
{
    let mut k: usize = 0;
    while k < listing.forms.len()
        invariant
            k <= listing.forms@.len(),
            forall|j: int| 0 <= j < k ==> !contains_text(listing.forms@[j]@, wanted@),
        decreases listing.forms.len() - k,
    {
        if holds(listing.forms[k].as_str(), wanted) {
            return true;
        }
        k = k + 1;
    }
    false
}

fn any_named(listing: &Listing, wanted: &str) -> (any: bool)
    ensures
        any == named(*listing, wanted@),
{
    let mut k: usize = 0;
    while k < listing.forms.len()
        invariant
            k <= listing.forms@.len(),
            forall|j: int| 0 <= j < k ==> listing.forms@[j]@ != wanted@,
        decreases listing.forms.len() - k,
    {
        if crate::render::same_text(listing.forms[k].as_str(), wanted) {
            return true;
        }
        k = k + 1;
    }
    false
}

impl Directory {
    pub closed spec fn entries(self) -> Seq<Listing> {
        self.listings@
    }

    /// A directory of the given listings, kept in the order given.
    pub fn new(listings: Vec<Listing>) -> (directory: Directory)
        ensures
            directory.entries() == listings@,
    {
        Directory { listings }
    }

    fn matching_positions(&self, wanted: &Vec<char>, at_start: bool) -> (found: Vec<usize>)
        ensures
            forall|j: int| 0 <= j < found@.len() ==> found@[j] < self.listings@.len(),
            found@.map_values(|p: usize| self.listings@[p as int]) == matching(
                self.listings@,
                wanted@,
                at_start,
            ),
    {
        let mut found: Vec<usize> = Vec::new();
        let mut index: usize = 0;
        while index < self.listings.len()
            invariant
                index <= self.listings@.len(),
                forall|j: int| 0 <= j < found@.len() ==> found@[j] < index,
                found@.map_values(|p: usize| self.listings@[p as int]) == matching(
                    self.listings@.take(index as int),
                    wanted@,
                    at_start,
                ),
            decreases self.listings.len() - index,
        {
            let ghost seen = self.listings@.take(index + 1);
            assert(seen.drop_last() == self.listings@.take(index as int));
            assert(seen.last() == self.listings@[index as int]);
            let listing = &self.listings[index];
            let begins = any_begins(listing, wanted);
            let keep = if at_start {
                begins
            } else {
                !begins && any_holds(listing, wanted)
            };
            let ghost before = found@;
            if keep {
                found.push(index);
                assert(found@.map_values(|p: usize| self.listings@[p as int]) =~= before.map_values(
                    |p: usize| self.listings@[p as int],
                ).push(self.listings@[index as int]));
            }
            index = index + 1;
        }
        assert(self.listings@.take(self.listings@.len() as int) == self.listings@);
        found
    }

    /// What to offer a player who has typed an answer that cleans to `wanted`.
    pub fn suggest(&self, wanted: &str) -> (suggestions: Vec<Suggestion>)
        ensures
            suggestions@.map_values(|s: Suggestion| suggestion_view(s)) == suggested(
                self.entries(),
                wanted@,
            ).map_values(|l: Listing| suggestion_of(l)),
    {
        let wanted_chars = chars_of(wanted);
        let mut positions = self.matching_positions(&wanted_chars, true);
        let mut inside_positions = self.matching_positions(&wanted_chars, false);
        let ghost first = positions@;
        let ghost second = inside_positions@;
        positions.append(&mut inside_positions);
        let ghost all = matching(self.listings@, wanted@, true) + matching(
            self.listings@,
            wanted@,
            false,
        );
        assert(positions@.map_values(|p: usize| self.listings@[p as int]) =~= all) by {
            assert(positions@ == first + second);
        }
        let count = if positions.len() < MAX_SUGGESTIONS {
            positions.len()
        } else {
            MAX_SUGGESTIONS
        };
        let ghost chosen = suggested(self.listings@, wanted@);
        let mut suggestions: Vec<Suggestion> = Vec::new();
        let mut index: usize = 0;
        while index < count
            invariant
                count <= positions@.len(),
                chosen.len() == count,
                forall|j: int| 0 <= j < positions@.len() ==> positions@[j] < self.listings@.len(),
                forall|j: int|
                    0 <= j < count ==> chosen[j] == self.listings@[positions@[j] as int],
                index <= count,
                suggestions@.len() == index,
                forall|j: int|
                    0 <= j < index ==> suggestion_view(#[trigger] suggestions@[j])
                        == suggestion_of(chosen[j]),
            decreases count - index,
        {
            let listing = &self.listings[positions[index]];
            suggestions.push(
                Suggestion { label: listing.label.clone(), index: listing.index.clone() },
            );
            index = index + 1;
        }
        assert(suggestions@.map_values(|s: Suggestion| suggestion_view(s)) =~= chosen.map_values(
            |l: Listing| suggestion_of(l),
        ));
        suggestions
    }

    /// The ID of the ship a typed answer names: `by_index` is the ship ID the answer spells,
    /// if it spells one, and `wanted` the answer cleaned.
    pub fn resolve(&self, by_index: Option<&str>, wanted: &str) -> (index: Option<String>)
        ensures
            match index {
                Some(index) => resolved(self.entries(), str_view(by_index), wanted@) == Some(
                    index@,
                ),
                None => resolved(self.entries(), str_view(by_index), wanted@) is None,
            },
    {
        let ghost listings = self.listings@;
        if let Some(id) = by_index {
            assert(str_view(by_index) == Some(id@));
            let mut position: usize = 0;
            while position < self.listings.len()
                invariant
                    listings == self.listings@,
                    str_view(by_index) == Some(id@),
                    position <= self.listings@.len(),
                    first_with_index(listings, id@, 0) == first_with_index(
                        listings,
                        id@,
                        position as int,
                    ),
                decreases self.listings.len() - position,
            {
                if crate::render::same_text(self.listings[position].index.as_str(), id) {
                    assert(first_with_index(listings, id@, position as int) == Some(
                        listings[position as int],
                    ));
                    let index = self.listings[position].index.clone();
                    assert(index@ == listings[position as int].index@);
                    assert(resolved(listings, str_view(by_index), wanted@) == Some(index@));
                    return Some(index);
                }
                position = position + 1;
            }
            assert(first_with_index(listings, id@, position as int) is None);
        }
        if wanted.unicode_len() == 0 {
            return None;
        }
        let mut position: usize = 0;
        while position < self.listings.len()
            invariant
                listings == self.listings@,
                wanted@.len() > 0,
                match str_view(by_index) {
                    Some(id) => first_with_index(listings, id, 0) is None,
                    None => true,
                },
                position <= self.listings@.len(),
                first_named(listings, wanted@, 0) == first_named(
                    listings,
                    wanted@,
                    position as int,
                ),
            decreases self.listings.len() - position,
        {
            if any_named(&self.listings[position], wanted) {
                assert(first_named(listings, wanted@, position as int) == Some(
                    listings[position as int],
                ));
                let index = self.listings[position].index.clone();
                assert(index@ == listings[position as int].index@);
                assert(resolved(listings, str_view(by_index), wanted@) == Some(index@));
                return Some(index);
            }
            position = position + 1;
        }
        assert(first_named(listings, wanted@, position as int) is None);
        None
    }
}

pub open spec fn str_view(text: Option<&str>) -> Option<Seq<char>> {
    match text {
        Some(text) => Some(text@),
        None => None,
    }
}


proof fn lemma_leading_in_order(listings: Seq<Listing>, wanted: Seq<char>)
    ensures
        matching(listings, wanted, true) == listings.filter(
            |listing: Listing|
                exists|k: int|
                    0 <= k < listing.forms@.len() && wanted.len() <= listing.forms@[k]@.len()
                        && listing.forms@[k]@.take(wanted.len() as int) == wanted,
        ),
    decreases listings.len(),
{
    reveal(Seq::filter);
    if listings.len() > 0 {
        lemma_leading_in_order(listings.drop_last(), wanted);
    }
}

/// The suggestions begin with the listings that have a form starting with the typed text, in
/// directory order, as many of them as fit in the 25 shown; fewer than 25 only when there are
/// fewer matches in all.
pub proof fn law_suggestions_lead_with_prefix_matches(listings: Seq<Listing>, wanted: Seq<char>)
    ensures
        ({
            let leading_listings = listings.filter(
                |listing: Listing|
                    exists|k: int|
                        0 <= k < listing.forms@.len() && wanted.len() <= listing.forms@[k]@.len()
                            && listing.forms@[k]@.take(wanted.len() as int) == wanted,
            );
            let shown = if leading_listings.len() < 25 {
                leading_listings.len() as int
            } else {
                25
            };
            &&& suggested(listings, wanted).len() <= 25
            &&& suggested(listings, wanted).len() >= shown
            &&& suggested(listings, wanted).take(shown) == leading_listings.take(shown)
        }),
{
    lemma_leading_in_order(listings, wanted);
    let first = matching(listings, wanted, true);
    let all = first + matching(listings, wanted, false);
    let shown = if first.len() < 25 {
        first.len() as int
    } else {
        25
    };
    assert(suggested(listings, wanted).take(shown) =~= first.take(shown));
}

/// When every listing has a name form, an empty text suggests the first listings of the
/// directory, as many as are shown.
pub proof fn law_empty_text_suggests_everything(listings: Seq<Listing>)
    requires
        forall|i: int| 0 <= i < listings.len() ==> (#[trigger] listings[i]).forms@.len() > 0,
    ensures
        suggested(listings, Seq::empty()) == listings.take(
            if listings.len() < 25 {
                listings.len() as int
            } else {
                25
            },
        ),
{
    let empty = Seq::<char>::empty();
    law_suggestions_lead_with_prefix_matches(listings, empty);
    let pred = |listing: Listing|
        exists|k: int|
            0 <= k < listing.forms@.len() && empty.len() <= listing.forms@[k]@.len()
                && listing.forms@[k]@.take(empty.len() as int) == empty;
    assert forall|i: int| 0 <= i < listings.len() implies pred(listings[i]) && leading(
        #[trigger] listings[i],
        empty,
    ) by {
        assert(listings[i].forms@[0]@.take(0) =~= empty);
    }
    lemma_filter_all(listings, pred);
    lemma_no_inside_when_all_lead(listings, empty);
    lemma_leading_in_order(listings, empty);
    assert(matching(listings, empty, true) == listings);
    assert(matching(listings, empty, true) + matching(listings, empty, false) =~= listings);
}

proof fn lemma_no_inside_when_all_lead(listings: Seq<Listing>, wanted: Seq<char>)
    requires
        forall|i: int| 0 <= i < listings.len() ==> leading(#[trigger] listings[i], wanted),
    ensures
        matching(listings, wanted, false).len() == 0,
    decreases listings.len(),
{
    if listings.len() > 0 {
        assert(leading(listings[listings.len() - 1], wanted));
        lemma_no_inside_when_all_lead(listings.drop_last(), wanted);
    }
}

proof fn lemma_filter_all(items: Seq<Listing>, pred: spec_fn(Listing) -> bool)
    requires
        forall|i: int| 0 <= i < items.len() ==> pred(items[i]),
    ensures
        items.filter(pred) == items,
    decreases items.len(),
{
    reveal(Seq::filter);
    if items.len() > 0 {
        lemma_filter_all(items.drop_last(), pred);
        assert(items.drop_last().push(items.last()) =~= items);
    }
}

} // verus!
