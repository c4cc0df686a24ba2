//! What characters carry: items found by part of their name, added, taken
//! and handed to another character, and weapons handed over or dropped.
use crate::character::item::{Item, ItemView};
use crate::character::weapon::{Weapon, WeaponView};
use crate::locale::{locale_text_by_tag_lang, LocaleLang, LocaleTag};
use crate::message::{spec_tag_text, MessageContent, MessageView};
use crate::text::{contains_ignore_case, push_int, spec_contains_ignore_case, spec_int_str, spec_occurs_at};
use crate::utils::{lemma_first_index, lemma_first_index_at, lemma_first_index_full, lemma_first_index_step, spec_first_index};
use vstd::prelude::*;

verus! {

/// The views of a list of items.
pub open spec fn spec_item_views(items: Seq<Item>) -> Seq<ItemView> {
    items.map_values(|i: Item| i@)
}

/// An item whose name holds `name`, up to ASCII case.
pub open spec fn spec_item_named(name: Seq<char>) -> spec_fn(ItemView) -> bool {
    |i: ItemView| spec_contains_ignore_case(i.name, name)
}

/// The position of the first item whose name holds `name`.
pub open spec fn spec_find_item(items: Seq<ItemView>, name: Seq<char>) -> Option<int> {
    spec_first_index(items, spec_item_named(name))
}

/// The position of the first item whose name holds `name`, up to ASCII case.
pub fn find_item(items: &Vec<Item>, name: &str) -> (r: Option<usize>)
    ensures
        match r {
            Some(i) => spec_find_item(spec_item_views(items@), name@) == Some(i as int) && i < items@.len(),
            None => spec_find_item(spec_item_views(items@), name@) is None,
        },
{
    let ghost views = spec_item_views(items@);
    let ghost p = spec_item_named(name@);
    let mut i: usize = 0;
    while i < items.len()
        invariant
            views == spec_item_views(items@),
            p == spec_item_named(name@),
            i <= items@.len(),
            spec_first_index(views.take(i as int), p) is None,
        decreases items@.len() - i,
    {
        proof {
            lemma_first_index_step(views, p, i as int);
        }
        if contains_ignore_case(items[i].name.as_str(), name) {
            proof {
                assert(views[i as int] == items@[i as int]@);
                lemma_found_after_prefix(views, p, i as int);
            }
            return Some(i);
        }
        i += 1;
    }
    proof {
        lemma_first_index_full(views, p);
    }
    None
}

proof fn lemma_found_after_prefix<T>(s: Seq<T>, p: spec_fn(T) -> bool, i: int)
    requires
        0 <= i < s.len(),
        spec_first_index(s.take(i), p) is None,
        p(s[i]),
    ensures
        spec_first_index(s, p) == Some(i),
{
    lemma_first_index(s.take(i), p);
    assert forall|j: int| 0 <= j < i implies !p(#[trigger] s[j]) by {
        assert(s.take(i)[j] == s[j]);
    }
    lemma_first_index_at(s, p, i);
}

/// The items after adding `quantity` of `name`: to the first item whose
/// name holds it, or as a new item at the end.
pub open spec fn spec_add_item(items: Seq<ItemView>, name: Seq<char>, quantity: i32, unit: Option<Seq<char>>) -> Seq<ItemView> {
    match spec_find_item(items, name) {
        Some(i) => items.update(i, ItemView { quantity: (items[i].quantity + quantity) as i32, ..items[i] }),
        None => items.push(ItemView { name, quantity, unit }),
    }
}

/// Adding `quantity` to the item it goes to fits an `i32`.
pub open spec fn spec_add_fits(items: Seq<ItemView>, name: Seq<char>, quantity: i32) -> bool {
    match spec_find_item(items, name) {
        Some(i) => i32::MIN <= items[i].quantity + quantity <= i32::MAX,
        None => true,
    }
}

fn add_at(items: &mut Vec<Item>, i: usize, quantity: i32)
    requires
        i < old(items)@.len(),
        i32::MIN <= old(items)@[i as int].quantity + quantity <= i32::MAX,
    ensures
        spec_item_views(final(items)@) == spec_item_views(old(items)@).update(
            i as int,
            ItemView { quantity: (old(items)@[i as int].quantity + quantity) as i32, ..old(items)@[i as int]@ },
        ),
{
    let mut item = items[i].clone();
    item.add(quantity);
    items.set(i, item);
    assert(spec_item_views(items@) =~= spec_item_views(old(items)@).update(
        i as int,
        ItemView { quantity: (old(items)@[i as int].quantity + quantity) as i32, ..old(items)@[i as int]@ },
    ));
}

/// Adds `quantity` of `name`, counted in `unit` where it is a new item.
pub fn add_item(items: &mut Vec<Item>, name: &str, quantity: i32, unit: Option<&str>)
    requires
        spec_add_fits(spec_item_views(old(items)@), name@, quantity),
    ensures
        spec_item_views(final(items)@) == spec_add_item(
            spec_item_views(old(items)@),
            name@,
            quantity,
            match unit {
                Some(u) => Some(u@),
                None => None,
            },
        ),
{
    match find_item(items, name) {
        Some(i) => {
            add_at(items, i, quantity);
        },
        None => {
            let ghost before = spec_item_views(items@);
            let item = Item::new(name, quantity, unit);
            items.push(item);
            assert(spec_item_views(items@) =~= before.push(item@));
        },
    }
}

/// What taking `quantity` of the first item named `name` leaves and gives:
/// no more than there is is taken, and an item of which none is left is
/// dropped from the list; nothing when no item is named so.
pub open spec fn spec_take_item(items: Seq<ItemView>, name: Seq<char>, quantity: i32) -> Option<(Seq<ItemView>, ItemView)> {
    match spec_find_item(items, name) {
        Some(i) => {
            let it = items[i];
            let taken = if it.quantity < quantity { it.quantity } else { quantity };
            let left = ItemView { quantity: (it.quantity - taken) as i32, ..it };
            Some((if left.quantity == 0 { items.remove(i) } else { items.update(i, left) }, ItemView { quantity: taken, ..it }))
        },
        None => None,
    }
}

/// Taking `quantity` of the item it comes from fits an `i32`.
pub open spec fn spec_take_fits(items: Seq<ItemView>, name: Seq<char>, quantity: i32) -> bool {
    match spec_find_item(items, name) {
        Some(i) => items[i].quantity < quantity || items[i].quantity - quantity <= i32::MAX,
        None => true,
    }
}

/// Takes `quantity` of the first item whose name holds `name`; `None`
/// where there is no such item, and the list is unchanged.
pub fn take_item(items: &mut Vec<Item>, name: &str, quantity: i32) -> (r: Option<Item>)
    requires
        spec_take_fits(spec_item_views(old(items)@), name@, quantity),
    ensures
        match spec_take_item(spec_item_views(old(items)@), name@, quantity) {
            Some((rest, taken)) => r matches Some(t) && t@ == taken && spec_item_views(final(items)@) == rest,
            None => r is None && final(items)@ == old(items)@,
        },
{
    let ghost before = spec_item_views(items@);
    let i = match find_item(items, name) {
        Some(i) => i,
        None => {
            return None;
        },
    };
    let mut item = items[i].clone();
    let taken = match item.remove(quantity) {
        Ok(t) => t,
        Err(_) => {
            return None;
        },
    };
    if item.quantity == 0 {
        items.remove(i);
        assert(spec_item_views(items@) =~= before.remove(i as int));
    } else {
        items.set(i, item);
        assert(spec_item_views(items@) =~= before.update(i as int, item@));
    }
    Some(taken)
}

/// The items after receiving `item`: its quantity goes to the first item
/// whose name holds its name, or it is put at the end.
pub open spec fn spec_receive_item(items: Seq<ItemView>, item: ItemView) -> Seq<ItemView> {
    match spec_find_item(items, item.name) {
        Some(i) => items.update(i, ItemView { quantity: (items[i].quantity + item.quantity) as i32, ..items[i] }),
        None => items.push(item),
    }
}

/// Receives an item handed over by another character.
pub fn receive_item(items: &mut Vec<Item>, item: Item)
    requires
        spec_add_fits(spec_item_views(old(items)@), item@.name, item.quantity),
    ensures
        spec_item_views(final(items)@) == spec_receive_item(spec_item_views(old(items)@), item@),
{
    match find_item(items, item.name.as_str()) {
        Some(i) => {
            add_at(items, i, item.quantity);
        },
        None => {
            let ghost before = spec_item_views(items@);
            let ghost iv = item@;
            items.push(item);
            assert(spec_item_views(items@) =~= before.push(iv));
        },
    }
}

/// A name holds itself, up to ASCII case.
pub proof fn lemma_contains_itself(s: Seq<char>)
    ensures
        spec_contains_ignore_case(s, s),
{
    assert(spec_occurs_at(s, s, 0));
}

/// Handing back what was taken restores the list, where some of the item
/// is left and no item before it is named by its name.
pub proof fn lemma_take_then_receive_restores(items: Seq<ItemView>, name: Seq<char>, quantity: i32)
    requires
        spec_take_fits(items, name, quantity),
        spec_take_item(items, name, quantity) matches Some((rest, taken)) && rest.len() == items.len(),
        spec_find_item(items, name) matches Some(i) && spec_find_item(items, items[i].name) == Some(i),
    ensures
        spec_take_item(items, name, quantity) matches Some((rest, taken)) && spec_receive_item(rest, taken) == items,
{
    let i = spec_find_item(items, name)->0;
    let (rest, taken) = spec_take_item(items, name, quantity)->0;
    let p = spec_item_named(items[i].name);
    lemma_first_index(items, p);
    lemma_first_index(items, spec_item_named(name));
    assert(rest == items.update(i, ItemView { quantity: (items[i].quantity - taken.quantity) as i32, ..items[i] }));
    assert forall|j: int| 0 <= j < i implies !p(#[trigger] rest[j]) by {
        assert(rest[j] == items[j]);
    }
    lemma_contains_itself(items[i].name);
    assert(p(rest[i]));
    lemma_first_index_at(rest, p, i);
    assert(spec_receive_item(rest, taken) =~= items);
}

/// The message of items added to what a character carries.
pub open spec fn spec_items_message(lang: LocaleLang, character_name: Seq<char>, sign: Seq<char>, item_name: Seq<char>, quantity: i32) -> MessageView {
    MessageView {
        title: "`"@ + character_name + "`"@,
        description: sign + " `"@ + item_name + " ["@ + spec_int_str(quantity as int) + " "@ + spec_tag_text(lang, LocaleTag::Pcs) + "]`"@,
        footer: Seq::<char>::empty(),
        colour: None,
    }
}

/// The message of `quantity` of `item_name` added (`added`) or taken away.
pub fn items_message(lang: LocaleLang, character_name: &str, added: bool, item_name: &str, quantity: i32) -> (r: MessageContent)
    ensures
        r@ == spec_items_message(lang, character_name@, if added { "➕"@ } else { "➖"@ }, item_name@, quantity),
{
    let mut title = String::from_str("`");
    title.append(character_name);
    title.append("`");
    let mut d = if added { String::from_str("➕") } else { String::from_str("➖") };
    d.append(" `");
    d.append(item_name);
    d.append(" [");
    push_int(&mut d, quantity as i64);
    d.append(" ");
    let pcs = locale_text_by_tag_lang(lang, LocaleTag::Pcs);
    d.append(pcs.as_str());
    d.append("]`");
    MessageContent { title, description: d, footer: String::new(), colour: None }
}

/// The title of a hand-over: who received what of which kind from whom.
pub open spec fn spec_received_title(lang: LocaleLang, receiver: Seq<char>, kind: LocaleTag, what: Seq<char>, giver: Seq<char>) -> Seq<char> {
    "`"@ + receiver + "`: "@ + spec_tag_text(lang, LocaleTag::Received) + " "@ + spec_tag_text(lang, kind) + " `"@ + what
        + "` "@ + spec_tag_text(lang, LocaleTag::From) + " `"@ + giver + "`"@
}

/// The message of a hand-over of an item (`weapon` false) or a weapon.
pub fn received_message(lang: LocaleLang, receiver: &str, weapon: bool, what: &str, giver: &str) -> (r: MessageContent)
    ensures
        r@ == (MessageView {
            title: spec_received_title(lang, receiver@, if weapon { LocaleTag::Weapon } else { LocaleTag::Item }, what@, giver@),
            description: Seq::<char>::empty(),
            footer: Seq::<char>::empty(),
            colour: None,
        }),
{
    let mut t = String::from_str("`");
    t.append(receiver);
    t.append("`: ");
    let received = locale_text_by_tag_lang(lang, LocaleTag::Received);
    t.append(received.as_str());
    t.append(" ");
    let kind = locale_text_by_tag_lang(lang, if weapon { LocaleTag::Weapon } else { LocaleTag::Item });
    t.append(kind.as_str());
    t.append(" `");
    t.append(what);
    t.append("` ");
    let from = locale_text_by_tag_lang(lang, LocaleTag::From);
    t.append(from.as_str());
    t.append(" `");
    t.append(giver);
    t.append("`");
    MessageContent { title: t, description: String::new(), footer: String::new(), colour: None }
}

/// The views of a list of weapons.
pub open spec fn spec_weapon_views(weapons: Seq<Weapon>) -> Seq<WeaponView> {
    weapons.map_values(|w: Weapon| w@)
}

/// A weapon whose name holds `name`, up to ASCII case; with `giveable`,
/// only one that is not part of every character's kit.
pub open spec fn spec_weapon_named(name: Seq<char>, giveable: bool) -> spec_fn(WeaponView) -> bool {
    |w: WeaponView| spec_contains_ignore_case(w.name, name) && !(giveable && w.default)
}

/// The position of the first weapon whose name holds `name`; with
/// `giveable`, of the first such weapon that can be handed over.
pub fn find_weapon(weapons: &Vec<Weapon>, name: &str, giveable: bool) -> (r: Option<usize>)
    ensures
        match r {
            Some(i) => spec_first_index(spec_weapon_views(weapons@), spec_weapon_named(name@, giveable)) == Some(i as int)
                && i < weapons@.len(),
            None => spec_first_index(spec_weapon_views(weapons@), spec_weapon_named(name@, giveable)) is None,
        },
{
    let ghost views = spec_weapon_views(weapons@);
    let ghost p = spec_weapon_named(name@, giveable);
    let mut i: usize = 0;
    while i < weapons.len()
        invariant
            views == spec_weapon_views(weapons@),
            p == spec_weapon_named(name@, giveable),
            i <= weapons@.len(),
            spec_first_index(views.take(i as int), p) is None,
        decreases weapons@.len() - i,
    {
        proof {
            lemma_first_index_step(views, p, i as int);
        }
        if contains_ignore_case(weapons[i].name.as_str(), name) && !(giveable && weapons[i].default) {
            proof {
                assert(views[i as int] == weapons@[i as int]@);
                lemma_found_after_prefix(views, p, i as int);
            }
            return Some(i);
        }
        i += 1;
    }
    proof {
        lemma_first_index_full(views, p);
    }
    None
}

/// Takes out the first weapon whose name holds `name` (with `giveable`,
/// the first that can be handed over); `None` where there is none, and the
/// list is unchanged.
pub fn take_weapon(weapons: &mut Vec<Weapon>, name: &str, giveable: bool) -> (r: Option<Weapon>)
    ensures
        match spec_first_index(spec_weapon_views(old(weapons)@), spec_weapon_named(name@, giveable)) {
            Some(i) => r matches Some(w) && w@ == spec_weapon_views(old(weapons)@)[i]
                && spec_weapon_views(final(weapons)@) == spec_weapon_views(old(weapons)@).remove(i),
            None => r is None && final(weapons)@ == old(weapons)@,
        },
{
    let ghost before = spec_weapon_views(weapons@);
    match find_weapon(weapons, name, giveable) {
        Some(i) => {
            let w = weapons.remove(i);
            assert(spec_weapon_views(weapons@) =~= before.remove(i as int));
            Some(w)
        },
        None => None,
    }
}

} // verus!
