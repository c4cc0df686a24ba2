//! Items that a character carries.
use crate::locale::{locale_text_by_tag_lang, spec_locale_entry, spec_text, LocaleLang, LocaleTag};
use crate::text::{push_int, spec_int_str};
use vstd::prelude::*;

verus! {

/// An item, how many of it there are, and the unit they are counted in.
#[derive(Debug)]
pub struct Item {
    pub name: String,
    pub quantity: i32,
    pub unit: Option<String>,
}

pub struct ItemView {
    pub name: Seq<char>,
    pub quantity: i32,
    pub unit: Option<Seq<char>>,
}

/// The view of an optional string.
pub open spec fn spec_opt_str(o: Option<String>) -> Option<Seq<char>> {
    match o {
        Some(s) => Some(s@),
        None => None,
    }
}

impl View for Item {
    type V = ItemView;

    open spec fn view(&self) -> ItemView {
        ItemView { name: self.name@, quantity: self.quantity, unit: spec_opt_str(self.unit) }
    }
}

pub(crate) fn clone_opt_string(o: &Option<String>) -> (r: Option<String>)
    ensures
        spec_opt_str(r) == spec_opt_str(*o),
{
    match o {
        Some(s) => Some(s.clone()),
        None => None,
    }
}

impl Clone for Item {
    fn clone(&self) -> (r: Self)
        ensures
            r@ == self@,
    {
        Item { name: self.name.clone(), quantity: self.quantity, unit: clone_opt_string(&self.unit) }
    }
}

/// Why items could not be removed.
#[derive(Debug, Clone, Copy, PartialEq, Eq, Structural)]
pub enum ItemError {
    CantRemove(i32),
}

/// The message of a refusal, in a language.
pub open spec fn spec_item_error_text(e: ItemError, lang: LocaleLang) -> Seq<char> {
    match (e, lang) {
        (ItemError::CantRemove(q), LocaleLang::Polski) => "Nie można usunąć "@ + spec_int_str(q as int) + " jednostek."@,
        (ItemError::CantRemove(q), LocaleLang::English) => "Can't remove "@ + spec_int_str(q as int) + " units."@,
    }
}

impl ItemError {
    pub fn to_string(&self, lang: LocaleLang) -> (r: String)
        ensures
            r@ == spec_item_error_text(*self, lang),
    {
        match (self, lang) {
            (ItemError::CantRemove(q), LocaleLang::Polski) => {
                let mut s = String::from_str("Nie można usunąć ");
                push_int(&mut s, *q as i64);
                s.append(" jednostek.");
                s
            },
            (ItemError::CantRemove(q), LocaleLang::English) => {
                let mut s = String::from_str("Can't remove ");
                push_int(&mut s, *q as i64);
                s.append(" units.");
                s
            },
        }
    }
}

/// How an item is listed: its name, then its quantity and unit unless
/// there is exactly one; without a unit, pieces.
pub open spec fn spec_item_text(i: ItemView, lang: LocaleLang) -> Seq<char> {
    if i.quantity != 1 {
        i.name + " ["@ + spec_int_str(i.quantity as int) + " "@ + (match i.unit {
            Some(u) => u,
            None => spec_text(spec_locale_entry(LocaleTag::Pcs)->0, lang),
        }) + "]"@
    } else {
        i.name
    }
}

impl Item {
    pub fn new(name: &str, quantity: i32, unit: Option<&str>) -> (r: Self)
        ensures
            r@ == (ItemView {
                name: name@,
                quantity,
                unit: match unit {
                    Some(u) => Some(u@),
                    None => None,
                },
            }),
    {
        let unit = match unit {
            Some(u) => Some(String::from_str(u)),
            None => None,
        };
        Item { name: String::from_str(name), quantity, unit }
    }

    pub fn add(&mut self, quantity: i32)
        requires
            i32::MIN <= old(self).quantity + quantity <= i32::MAX,
        ensures
            final(self)@ == (ItemView { quantity: (old(self).quantity + quantity) as i32, ..old(self)@ }),
    {
        self.quantity = self.quantity + quantity;
    }

    /// Takes up to `quantity` of the item: no more than there are. Gives
    /// the item with the quantity taken.
    pub fn remove(&mut self, quantity: i32) -> (r: Result<Item, ItemError>)
        requires
            old(self).quantity < quantity || old(self).quantity - quantity <= i32::MAX,
        ensures
            ({
                let taken = if old(self).quantity < quantity { old(self).quantity } else { quantity };
                &&& final(self)@ == (ItemView { quantity: (old(self).quantity - taken) as i32, ..old(self)@ })
                &&& r matches Ok(item) && item@ == (ItemView { quantity: taken, ..old(self)@ })
            }),
    {
        let mut quantity = quantity;
        if self.quantity < quantity {
            quantity = self.quantity;
        }
        self.quantity = self.quantity - quantity;
        let mut removed_item = self.clone();
        removed_item.quantity = quantity;
        Ok(removed_item)
    }

    pub fn to_string(&self, lang: LocaleLang) -> (r: String)
        ensures
            r@ == spec_item_text(self@, lang),
    {
        let mut out = self.name.clone();
        if self.quantity != 1 {
            out.append(" [");
            push_int(&mut out, self.quantity as i64);
            out.append(" ");
            match &self.unit {
                Some(u) => out.append(u.as_str()),
                None => {
                    let pcs = locale_text_by_tag_lang(lang, LocaleTag::Pcs);
                    out.append(pcs.as_str());
                },
            }
            out.append("]");
        }
        out
    }
}

/// Taking items and putting the taken ones back restores the quantity;
/// no more is taken than there is.
pub proof fn lemma_remove_then_add_restores(quantity: i32, asked: i32)
    requires
        quantity < asked || quantity - asked <= i32::MAX,
    ensures
        ({
            let taken = if quantity < asked { quantity } else { asked };
            &&& (quantity - taken) + taken == quantity
            &&& taken <= quantity || taken == asked
            &&& quantity >= 0 && quantity < asked ==> quantity - taken == 0
        }),
{
}

} // verus!
