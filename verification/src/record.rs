//! The drink record that the recipe source hands over, and its
//! mathematical view.

use vstd::prelude::*;

verus! {

/// One ingredient of a drink with the amount to take of it. The recipe
/// source may leave out either field.
#[derive(Clone, Debug, PartialEq, Eq)]
pub struct Ingredient {
    pub ingredient: Option<String>,
    pub measure: Option<String>,
}

/// How to prepare a drink. Only the English text is read.
#[derive(Clone, Debug, PartialEq, Eq)]
pub struct Instructions {
    pub en: Option<String>,
}

/// A drink as the recipe source describes it. Every text may be absent.
#[derive(Clone, Debug, PartialEq, Eq)]
pub struct DrinkRecord {
    pub name: Option<String>,
    pub ingredients: Vec<Ingredient>,
    pub instructions: Instructions,
    pub glass_type: Option<String>,
}

/// The characters of an optional text.
pub open spec fn text_of(field: Option<String>) -> Option<Seq<char>> {
    match field {
        Some(text) => Some(text@),
        None => None,
    }
}

/// An [`Ingredient`] as a pair of optional character sequences.
pub struct IngredientView {
    pub ingredient: Option<Seq<char>>,
    pub measure: Option<Seq<char>>,
}

impl IngredientView {
    /// Both the name and the measure are present.
    pub open spec fn is_listed(self) -> bool {
        self.ingredient is Some && self.measure is Some
    }
}

impl View for Ingredient {
    type V = IngredientView;

    open spec fn view(&self) -> IngredientView {
        IngredientView {
            ingredient: text_of(self.ingredient),
            measure: text_of(self.measure),
        }
    }
}

/// The views of a sequence of ingredients, in order.
pub open spec fn ingredient_views(list: Seq<Ingredient>) -> Seq<IngredientView> {
    list.map_values(|item: Ingredient| item@)
}

/// The ingredients of `list` that have both fields, in order.
pub open spec fn listed(list: Seq<IngredientView>) -> Seq<IngredientView> {
    list.filter(|item: IngredientView| item.is_listed())
}

/// A [`DrinkRecord`] as optional character sequences; `instructions` is
/// the English text.
pub struct DrinkView {
    pub name: Option<Seq<char>>,
    pub ingredients: Seq<IngredientView>,
    pub instructions: Option<Seq<char>>,
    pub glass_type: Option<Seq<char>>,
}

impl DrinkView {
    /// The record can be shown: it has a name, at least one ingredient
    /// with both fields, English instructions and a glass.
    pub open spec fn is_complete(self) -> bool {
        &&& self.name is Some
        &&& listed(self.ingredients).len() > 0
        &&& self.instructions is Some
        &&& self.glass_type is Some
    }
}

impl View for DrinkRecord {
    type V = DrinkView;

    open spec fn view(&self) -> DrinkView {
        DrinkView {
            name: text_of(self.name),
            ingredients: ingredient_views(self.ingredients@),
            instructions: text_of(self.instructions.en),
            glass_type: text_of(self.glass_type),
        }
    }
}

/// The views of a sequence of records, in order.
pub open spec fn record_views(records: Seq<DrinkRecord>) -> Seq<DrinkView> {
    records.map_values(|record: DrinkRecord| record@)
}

} // verus!
