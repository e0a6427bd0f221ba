use vstd::prelude::*;
use vstd::string::*;

use crate::render::texts;
use crate::ships::ShipClass;
use crate::ships::Tier;
use crate::text::class_label;
use crate::text::class_text;
use crate::text::listing;
use crate::text::listing_text;
use crate::text::nation_label;
use crate::text::nation_text;
use crate::text::numeral;
use crate::text::tier_numeral;
use crate::text::FIELD_LIMIT;

verus! {

broadcast use vstd::string::group_string_axioms;

/// What a ship's info card shows: a title and named fields, in order.
#[derive(Debug, Clone, PartialEq, Eq)]
pub struct ShipCard {
    pub title: String,
    pub fields: Vec<(String, String)>,
}

/// What the catalog and the game know of a ship, as text.
#[derive(Debug, Clone, PartialEq, Eq)]
pub struct ShipFacts {
    /// The ship's ID.
    pub index: String,
    /// The name players see, if the ship has one.
    pub name: Option<String>,
    pub tier: Tier,
    pub class: ShipClass,
    pub nation: String,
    pub group: String,
    pub is_paper: bool,
    /// Why curation keeps the ship out of /guess, if it does, and the name of the ship it
    /// defers to, if any.
    pub removal: Option<(String, Option<String>)>,
    /// The answers /guess accepts for the ship.
    pub answers: Vec<String>,
    /// The names of the ships it is easily taken for.
    pub lookalikes: Vec<String>,
}

pub open spec fn card_title(facts: ShipFacts) -> Seq<char> {
    match facts.name {
        Some(name) => name@,
        None => facts.index@,
    }
}

/// Whether the ship is in /guess, or why not.
pub open spec fn in_guess_text(removal: Option<(String, Option<String>)>) -> Seq<char> {
    match removal {
        None => "Yes"@,
        Some((reason, base)) => "No: "@ + reason@ + match base {
            Some(base) => " ("@ + base@ + ")"@,
            None => Seq::empty(),
        },
    }
}

pub open spec fn card_fields(facts: ShipFacts) -> Seq<(Seq<char>, Seq<char>)> {
    seq![
        ("ID"@, facts.index@),
        ("Tier"@, numeral(facts.tier.value())),
        ("Class"@, class_text(facts.class)),
        ("Nation"@, nation_text(facts.nation@)),
        ("Group"@, facts.group@),
        ("Paper ship"@, if facts.is_paper { "Yes"@ } else { "No"@ }),
        ("In /guess"@, listing_text(seq![in_guess_text(facts.removal)], FIELD_LIMIT as int)),
        ("Accepted answers"@, listing_text(texts(facts.answers@), FIELD_LIMIT as int)),
        ("Look-alikes"@, listing_text(texts(facts.lookalikes@), FIELD_LIMIT as int)),
    ]
}

pub open spec fn field_view(field: (String, String)) -> (Seq<char>, Seq<char>) {
    (field.0@, field.1@)
}

fn in_guess(removal: &Option<(String, Option<String>)>) -> (text: String)
    ensures
        text@ == in_guess_text(*removal),
{
    match removal {
        None => String::from_str("Yes"),
        Some((reason, base)) => {
            let mut text = String::from_str("No: ");
            text.append(reason.as_str());
            match base {
                Some(base) => {
                    text.append(" (");
                    text.append(base.as_str());
                    text.append(")");
                },
                None => {},
            }
            text
        },
    }
}

/// The info card of a ship.
pub fn ship_card(facts: &ShipFacts) -> (card: ShipCard)
    ensures
        card.title@ == card_title(*facts),
        card.fields@.map_values(|field: (String, String)| field_view(field)) == card_fields(
            *facts,
        ),
{
    let title = match &facts.name {
        Some(name) => name.clone(),
        None => facts.index.clone(),
    };
    let guess_line = vec![in_guess(&facts.removal)];
    assert(texts(guess_line@) =~= seq![guess_line@[0]@]);
    let fields = vec![
        (String::from_str("ID"), facts.index.clone()),
        (String::from_str("Tier"), String::from_str(tier_numeral(facts.tier))),
        (String::from_str("Class"), class_label(&facts.class)),
        (String::from_str("Nation"), nation_label(facts.nation.as_str())),
        (String::from_str("Group"), facts.group.clone()),
        (
            String::from_str("Paper ship"),
            String::from_str(
                if facts.is_paper {
                    "Yes"
                } else {
                    "No"
                },
            ),
        ),
        (String::from_str("In /guess"), listing(guess_line.as_slice(), FIELD_LIMIT)),
        (String::from_str("Accepted answers"), listing(facts.answers.as_slice(), FIELD_LIMIT)),
        (String::from_str("Look-alikes"), listing(facts.lookalikes.as_slice(), FIELD_LIMIT)),
    ];
    assert(fields@.map_values(|field: (String, String)| field_view(field)) =~= card_fields(
        *facts,
    ));
    ShipCard { title, fields }
}

} // verus!
