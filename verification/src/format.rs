//! Turning a drink record into the text of a reply.

use vstd::prelude::*;

use crate::record::{
    ingredient_views, listed, record_views, DrinkRecord, DrinkView, Ingredient, IngredientView,
};
use crate::text::{join, joined, texts, trim, trimmed};

verus! {

/// The reply that stands in for a drink that cannot be shown.
pub open spec fn sentinel() -> Seq<char> {
    "no drink found"@
}

/// How one ingredient with both fields is shown: its trimmed name, then
/// its trimmed measure in round brackets.
pub open spec fn segment(item: IngredientView) -> Seq<char>
    recommends
        item.is_listed(),
{
    trimmed(item.ingredient->0) + " ("@ + trimmed(item.measure->0) + ")"@
}

/// The segments of the ingredients of `list` that have both fields, in
/// the order of `list`.
pub open spec fn segments(list: Seq<IngredientView>) -> Seq<Seq<char>> {
    listed(list).map_values(|item: IngredientView| segment(item))
}

/// The value of the ingredients line: the segments joined by a comma and
/// a space, trimmed.
pub open spec fn ingredients_line(list: Seq<IngredientView>) -> Seq<char> {
    trimmed(joined(segments(list), ", "@))
}

/// The four labelled lines that show a complete record.
pub open spec fn card(record: DrinkView) -> Seq<char>
    recommends
        record.is_complete(),
{
    "**Name**: "@ + trimmed(record.name->0)
        + "\n**Ingredients**: "@ + ingredients_line(record.ingredients)
        + "\n**Instructions**: "@ + trimmed(record.instructions->0)
        + "\n**Glass**: "@ + trimmed(record.glass_type->0)
}

/// The reply for one record: its card if it is complete, the sentinel if
/// anything is missing.
pub open spec fn formatted(record: DrinkView) -> Seq<char> {
    if record.is_complete() {
        card(record)
    } else {
        sentinel()
    }
}

/// The reply for what the recipe source returned: the first record
/// formatted, the sentinel if there is none.
pub open spec fn reply(records: Seq<DrinkView>) -> Seq<char> {
    if records.len() == 0 {
        sentinel()
    } else {
        formatted(records.first())
    }
}

/// Builds the sentinel reply.
pub fn no_drink_found() -> (message: String)
    ensures
        message@ == sentinel(),
{
    String::from_str("no drink found")
}

/// Shows one ingredient, if both its name and its measure are present.
pub fn ingredient_segment(item: &Ingredient) -> (shown: Option<String>)
    ensures
        shown is Some <==> item@.is_listed(),
        shown is Some ==> shown->0@ == segment(item@),
{
    match (&item.ingredient, &item.measure) {
        (Some(name), Some(measure)) => {
            let mut shown = String::from_str(trim(name.as_str()));
            shown.append(" (");
            shown.append(trim(measure.as_str()));
            shown.append(")");
            Some(shown)
        },
        _ => None,
    }
}

/// Shows every ingredient that has both fields, in the order given.
pub fn ingredient_segments(list: &Vec<Ingredient>) -> (shown: Vec<String>)
    ensures
        texts(shown@) == segments(ingredient_views(list@)),
{
    let mut shown: Vec<String> = Vec::new();
    let ghost all = ingredient_views(list@);
    for i in 0..list.len()
        invariant
            all == ingredient_views(list@),
            texts(shown@) == segments(all.take(i as int)),
    {
        let ghost before = texts(shown@);
        proof {
            lemma_segments_push(all.take(i as int), all[i as int]);
            assert(all.take(i + 1) =~= all.take(i as int).push(all[i as int]));
        }
        match ingredient_segment(&list[i]) {
            Some(one) => {
                shown.push(one);
                assert(texts(shown@) =~= before.push(one@));
            },
            None => {},
        }
    }
    proof {
        assert(all.take(list.len() as int) =~= all);
    }
    shown
}

/// Formats one record for display, or answers with the sentinel if the
/// record lacks a name, an ingredient with both fields, English
/// instructions or a glass.
pub fn format_drink(record: &DrinkRecord) -> (message: String)
    ensures
        message@ == formatted(record@),
{
    let name = match &record.name {
        Some(name) => name,
        None => {
            return no_drink_found();
        },
    };
    let shown = ingredient_segments(&record.ingredients);
    if shown.len() == 0 {
        return no_drink_found();
    }
    let instructions = match &record.instructions.en {
        Some(instructions) => instructions,
        None => {
            return no_drink_found();
        },
    };
    let glass = match &record.glass_type {
        Some(glass) => glass,
        None => {
            return no_drink_found();
        },
    };
    let line = join(&shown, ", ");
    let mut message = String::from_str("**Name**: ");
    message.append(trim(name.as_str()));
    message.append("\n**Ingredients**: ");
    message.append(trim(line.as_str()));
    message.append("\n**Instructions**: ");
    message.append(trim(instructions.as_str()));
    message.append("\n**Glass**: ");
    message.append(trim(glass.as_str()));
    message
}

/// The reply to a trigger, given what the recipe source returned: the
/// first record formatted, or the sentinel if nothing was returned.
pub fn reply_text(records: &Vec<DrinkRecord>) -> (message: String)
    ensures
        message@ == reply(record_views(records@)),
{
    if records.len() == 0 {
        no_drink_found()
    } else {
        format_drink(&records[0])
    }
}

/// One more ingredient at the end of a list adds its segment at the end
/// if it has both fields, and nothing if it does not.
pub proof fn lemma_segments_push(list: Seq<IngredientView>, item: IngredientView)
    ensures
        segments(list.push(item)) == if item.is_listed() {
            segments(list).push(segment(item))
        } else {
            segments(list)
        },
{
    list.lemma_filter_push(item, |item: IngredientView| item.is_listed());
    if item.is_listed() {
        assert(segments(list.push(item)) =~= segments(list).push(segment(item)));
    }
}

/// A record without a name is answered with the sentinel.
pub proof fn lemma_missing_name_gives_sentinel(record: DrinkRecord)
    requires
        record.name is None,
    ensures
        formatted(record@) == sentinel(),
{
}

/// A record in which no ingredient has both its name and its measure is
/// answered with the sentinel, however many ingredients it holds.
pub proof fn lemma_no_listed_ingredient_gives_sentinel(record: DrinkRecord)
    requires
        listed(record@.ingredients).len() == 0,
    ensures
        formatted(record@) == sentinel(),
{
}

/// A record without English instructions is answered with the sentinel,
/// whatever else it holds.
pub proof fn lemma_missing_instructions_gives_sentinel(record: DrinkRecord)
    requires
        record.instructions.en is None,
    ensures
        formatted(record@) == sentinel(),
{
}

/// A record without a glass is answered with the sentinel.
pub proof fn lemma_missing_glass_gives_sentinel(record: DrinkRecord)
    requires
        record.glass_type is None,
    ensures
        formatted(record@) == sentinel(),
{
}

/// A complete record is never answered with the sentinel: the sentinel
/// is the reply exactly when something is missing.
pub proof fn lemma_sentinel_means_incomplete(record: DrinkRecord)
    ensures
        formatted(record@) == sentinel() <==> !record@.is_complete(),
{
    reveal_strlit("no drink found");
    reveal_strlit("**Name**: ");
    if record@.is_complete() {
        assert(card(record@)[0] == '*');
        assert(sentinel()[0] == 'n');
    }
}

/// When the recipe source returns no record, the reply is the sentinel.
pub proof fn lemma_nothing_returned_gives_sentinel(records: Seq<DrinkRecord>)
    requires
        records.len() == 0,
    ensures
        reply(record_views(records)) == sentinel(),
{
}

/// The reply depends on nothing but the record: two records that hold
/// the same texts are formatted to the same reply.
pub proof fn lemma_same_record_same_reply(a: DrinkRecord, b: DrinkRecord)
    requires
        a@ == b@,
    ensures
        formatted(a@) == formatted(b@),
{
}

} // verus!
